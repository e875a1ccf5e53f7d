use vstd::prelude::*;
use crate::ball::Color;
use crate::geom::{coord_ok, Rect, Vec2, COORD_LIMIT};

verus! {

/// Lives a block starts with.
pub const BLOCK_LIVES: i64 = 2;

/// An upgrade block drops a power-up coin when it is destroyed.
#[derive(Clone, Copy, Debug, PartialEq, Eq, Structural)]
pub enum BlockType {
    Regular,
    Upgrade,
}

/// A destructible square.
#[derive(Clone, Copy, Debug, PartialEq, Eq, Structural)]
pub struct Block {
    pub rect: Rect,
    pub lives: i64,
    pub block_type: BlockType,
}

/// The lives a block has left after one hit.
pub open spec fn lives_after_hit(lives: int, super_ball: bool) -> int {
    if super_ball {
        0
    } else {
        lives - 1
    }
}

impl Block {
    pub open spec fn wf(self) -> bool {
        self.rect.wf()
    }

    /// A square block of side `block_size` at `pos`, with full lives.
    pub fn new(pos: Vec2, block_type: BlockType, block_size: i64) -> (r: Block)
        requires
            coord_ok(pos.x as int),
            coord_ok(pos.y as int),
            0 < block_size <= COORD_LIMIT,
        ensures
            r.wf(),
            r.rect == Rect::spec_new(pos.x, pos.y, block_size, block_size),
            r.lives == BLOCK_LIVES,
            r.block_type == block_type,
    {
        Block { rect: Rect::new(pos.x, pos.y, block_size, block_size), lives: BLOCK_LIVES, block_type }
    }

    /// Takes one hit: a super ball leaves no lives, any other ball takes one.
    pub fn hit(&mut self, super_ball: bool)
        requires
            old(self).lives > i64::MIN,
        ensures
            final(self).lives == lives_after_hit(old(self).lives as int, super_ball),
            final(self).rect == old(self).rect,
            final(self).block_type == old(self).block_type,
    {
        if super_ball {
            self.lives = 0;
        } else {
            self.lives = self.lives - 1;
        }
    }

    /// Whether the block has lives left.
    pub fn is_alive(&self) -> (r: bool)
        ensures
            r == (self.lives > 0),
    {
        self.lives > 0
    }

    /// Red or orange for a regular block, green or lime for an upgrade block,
    /// by lives left; black otherwise.
    pub fn color(&self) -> (r: Color)
        ensures
            r == (match self.block_type {
                BlockType::Regular => if self.lives == 2 {
                    Color::Red
                } else if self.lives == 1 {
                    Color::Orange
                } else {
                    Color::Black
                },
                BlockType::Upgrade => if self.lives == 2 {
                    Color::Green
                } else if self.lives == 1 {
                    Color::Lime
                } else {
                    Color::Black
                },
            }),
    {
        match self.block_type {
            BlockType::Regular => if self.lives == 2 {
                Color::Red
            } else if self.lives == 1 {
                Color::Orange
            } else {
                Color::Black
            },
            BlockType::Upgrade => if self.lives == 2 {
                Color::Green
            } else if self.lives == 1 {
                Color::Lime
            } else {
                Color::Black
            },
        }
    }
}

} // verus!
