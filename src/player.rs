use vstd::prelude::*;
use crate::ball::MICROS;
use crate::geom::{coord_ok, Rect, Vec2, COORD_LIMIT};

verus! {

/// The paddle: a horizontal rectangle moved left and right.
#[derive(Clone, Copy, Debug, PartialEq, Eq, Structural)]
pub struct Player {
    pub rect: Rect,
    pub speed: i64,
}

/// How far the paddle moves in `dt` microseconds, to the left, the right or
/// not at all.
pub open spec fn paddle_move(speed: int, dt: int, left: bool, right: bool) -> int {
    if left && !right {
        -(speed * dt / (MICROS as int))
    } else if right && !left {
        speed * dt / (MICROS as int)
    } else {
        0
    }
}

impl Player {
    pub open spec fn wf(self) -> bool {
        &&& self.rect.wf()
        &&& 0 <= self.speed <= COORD_LIMIT
    }

    /// A paddle of `size`, centred horizontally, `relative_pos_y` above the
    /// bottom of the screen.
    pub fn new(size: Vec2, speed: i64, relative_pos_y: i64, screen_width: i64, screen_height: i64) -> (r: Player)
        requires
            0 < size.x <= COORD_LIMIT,
            0 < size.y <= COORD_LIMIT,
            0 <= speed <= COORD_LIMIT,
            0 <= relative_pos_y <= COORD_LIMIT,
            0 <= screen_width <= COORD_LIMIT,
            0 <= screen_height <= COORD_LIMIT,
        ensures
            r.wf(),
            r.rect == Rect::spec_new(
                (screen_width / 2 - size.x / 2) as i64,
                (screen_height - relative_pos_y) as i64,
                size.x,
                size.y,
            ),
            r.speed == speed,
    {
        Player {
            rect: Rect::new(screen_width / 2 - size.x / 2, screen_height - relative_pos_y, size.x, size.y),
            speed,
        }
    }

    /// The paddle's left edge after moving, held on the screen.
    pub open spec fn spec_next_x(self, dt: int, left: bool, right: bool, screen_width: int) -> int {
        let x = self.rect.x + paddle_move(self.speed as int, dt, left, right);
        let x1 = if x <= 0 { 0 } else { x };
        if x1 + self.rect.w >= screen_width { screen_width - self.rect.w } else { x1 }
    }

    /// Moves the paddle by the held arrow key for `dt` microseconds, keeping
    /// it within `0 .. screen_width`.
    pub fn update(&mut self, dt: u32, left: bool, right: bool, screen_width: i64)
        requires
            old(self).wf(),
            0 <= screen_width <= COORD_LIMIT,
        ensures
            final(self).wf(),
            final(self).rect == (Rect {
                x: old(self).spec_next_x(dt as int, left, right, screen_width as int) as i64,
                ..old(self).rect
            }),
            final(self).speed == old(self).speed,
    {
        assert(0 <= (self.speed as int) * (dt as int) <= COORD_LIMIT * 4_294_967_295) by (nonlinear_arith)
            requires
                0 <= self.speed <= COORD_LIMIT,
                dt <= 4_294_967_295u32,
        ;
        let dist: i128 = (self.speed as i128) * (dt as i128) / (MICROS as i128);
        assert(dist <= COORD_LIMIT * 4295) by (nonlinear_arith)
            requires
                dist == (self.speed as int) * (dt as int) / 1_000_000,
                0 <= (self.speed as int) * (dt as int) <= COORD_LIMIT * 4_294_967_295,
        ;
        let mut x: i128 = self.rect.x as i128;
        if left && !right {
            x = x - dist;
        } else if right && !left {
            x = x + dist;
        }
        if x <= 0 {
            x = 0;
        }
        if x + self.rect.w as i128 >= screen_width as i128 {
            x = screen_width as i128 - self.rect.w as i128;
        }
        self.rect.x = x as i64;
    }
}

} // verus!
