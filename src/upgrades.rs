use vstd::prelude::*;
use crate::ball::Color;
use crate::geom::{clamp, clamp_coord, normalize, spec_normalize, Rect, Vec2, PIXEL};
use crate::random::random_range;

verus! {

/// Distance a magnetised coin moves per frame, per unit of its fixed-point
/// direction (two pixels a frame).
pub const MAGNET_SPEED: i64 = 2;

/// Distance a coin falls per frame.
pub const FALL_SPEED: i64 = PIXEL;

/// The effects a power-up coin can give.
#[derive(Clone, Copy, Debug, PartialEq, Eq, Structural)]
pub enum UpgradeType {
    Magnet,
    BallMultiplier,
    AddBall,
    SuperBall,
    ExtraLife,
    SpaceInvader,
}

/// The kind drawn for the number `i` of a uniform draw from `0 .. 6`.
pub open spec fn upgrade_of_index(i: int) -> UpgradeType {
    if i == 0 {
        UpgradeType::Magnet
    } else if i == 1 {
        UpgradeType::BallMultiplier
    } else if i == 2 {
        UpgradeType::AddBall
    } else if i == 3 {
        UpgradeType::SuperBall
    } else if i == 4 {
        UpgradeType::ExtraLife
    } else {
        UpgradeType::SpaceInvader
    }
}

pub fn upgrade_from_index(i: u32) -> (r: UpgradeType)
    ensures
        r == upgrade_of_index(i as int),
{
    if i == 0 {
        UpgradeType::Magnet
    } else if i == 1 {
        UpgradeType::BallMultiplier
    } else if i == 2 {
        UpgradeType::AddBall
    } else if i == 3 {
        UpgradeType::SuperBall
    } else if i == 4 {
        UpgradeType::ExtraLife
    } else {
        UpgradeType::SpaceInvader
    }
}

impl UpgradeType {
    pub fn color(&self) -> (r: Color)
        ensures
            r == (match *self {
                UpgradeType::Magnet => Color::Pink,
                UpgradeType::BallMultiplier => Color::SkyBlue,
                UpgradeType::AddBall => Color::Purple,
                UpgradeType::SuperBall => Color::Violet,
                UpgradeType::ExtraLife => Color::Gold,
                UpgradeType::SpaceInvader => Color::Black,
            }),
    {
        match *self {
            UpgradeType::Magnet => Color::Pink,
            UpgradeType::BallMultiplier => Color::SkyBlue,
            UpgradeType::AddBall => Color::Purple,
            UpgradeType::SuperBall => Color::Violet,
            UpgradeType::ExtraLife => Color::Gold,
            UpgradeType::SpaceInvader => Color::Black,
        }
    }
}

/// A falling power-up coin.
#[derive(Clone, Copy, Debug, PartialEq, Eq, Structural)]
pub struct UpgradeCoin {
    pub upgrade_type: UpgradeType,
    pub rect: Rect,
}

/// The point a magnetised coin steers toward: the middle of `r`, rounded
/// down.
pub open spec fn center_of(r: Rect) -> Vec2 {
    Vec2 { x: (r.x + r.w / 2) as i64, y: (r.y + r.h / 2) as i64 }
}

impl UpgradeCoin {
    /// A coin over `originating_block`, of the given kind or else of a
    /// uniformly drawn one.
    pub fn new(upgrade_type: Option<UpgradeType>, originating_block: Rect) -> (r: UpgradeCoin)
        ensures
            r.rect == originating_block,
            upgrade_type is Some ==> r.upgrade_type == upgrade_type->0,
            upgrade_type is None ==> exists|i: int| 0 <= i < 6 && r.upgrade_type == upgrade_of_index(i),
    {
        let kind = match upgrade_type {
            Some(t) => t,
            None => {
                let i = random_range(0, 6);
                let t = upgrade_from_index(i);
                assert(0 <= i < 6 && t == upgrade_of_index(i as int));
                t
            },
        };
        UpgradeCoin { upgrade_type: kind, rect: originating_block }
    }

    /// The coin after one frame: it steers toward the paddle's centre under
    /// a magnet, and otherwise falls straight down.
    pub open spec fn spec_moved(self, player: Rect, magnet: bool) -> UpgradeCoin {
        if magnet {
            let c = center_of(player);
            let dir = spec_normalize(Vec2 { x: (c.x - self.rect.x) as i64, y: (c.y - self.rect.y) as i64 });
            UpgradeCoin {
                rect: Rect {
                    x: clamp_coord(self.rect.x + dir.x * MAGNET_SPEED) as i64,
                    y: clamp_coord(self.rect.y + dir.y * MAGNET_SPEED) as i64,
                    ..self.rect
                },
                ..self
            }
        } else {
            UpgradeCoin { rect: Rect { y: clamp_coord(self.rect.y + FALL_SPEED) as i64, ..self.rect }, ..self }
        }
    }

    pub fn moved(&self, player: &Rect, magnet: bool) -> (r: UpgradeCoin)
        requires
            self.rect.wf(),
            player.wf(),
        ensures
            r == self.spec_moved(*player, magnet),
            r.rect.wf(),
    {
        if magnet {
            let cx = player.x + player.w / 2;
            let cy = player.y + player.h / 2;
            let dir = normalize(Vec2 { x: cx - self.rect.x, y: cy - self.rect.y });
            let x = clamp(self.rect.x as i128 + dir.x as i128 * MAGNET_SPEED as i128);
            let y = clamp(self.rect.y as i128 + dir.y as i128 * MAGNET_SPEED as i128);
            UpgradeCoin { rect: Rect { x, y, ..self.rect }, ..*self }
        } else {
            let y = clamp(self.rect.y as i128 + FALL_SPEED as i128);
            UpgradeCoin { rect: Rect { y, ..self.rect }, ..*self }
        }
    }
}

/// The kinds of the coins that touch the paddle, in order.
pub open spec fn collected(coins: Seq<UpgradeCoin>, player: Rect) -> Seq<UpgradeType>
    decreases coins.len(),
{
    if coins.len() == 0 {
        Seq::empty()
    } else {
        let rest = collected(coins.drop_last(), player);
        if coins.last().rect.spec_overlaps(player) {
            rest.push(coins.last().upgrade_type)
        } else {
            rest
        }
    }
}

/// The coins that stay: above the bottom of the screen and not touching the
/// paddle, in order.
pub open spec fn kept(coins: Seq<UpgradeCoin>, player: Rect, screen_height: int) -> Seq<UpgradeCoin>
    decreases coins.len(),
{
    if coins.len() == 0 {
        Seq::empty()
    } else {
        let rest = kept(coins.drop_last(), player, screen_height);
        let c = coins.last();
        if c.rect.y < screen_height && !c.rect.spec_overlaps(player) {
            rest.push(c)
        } else {
            rest
        }
    }
}

/// Falling coins, collected kinds waiting to take effect, and the lasting
/// effects.
pub struct Upgrades {
    pub falling_upgrades: Vec<UpgradeCoin>,
    pub active_upgrades: Vec<UpgradeType>,
    pub magnet_active: bool,
    pub space_invader_active: bool,
}

impl Upgrades {
    /// Every falling coin has a well-formed rectangle.
    pub open spec fn wf(&self) -> bool {
        forall|i: int| 0 <= i < self.falling_upgrades@.len() ==> #[trigger] self.falling_upgrades@[i].rect.wf()
    }

    /// Nothing falling, nothing collected, no lasting effect.
    pub open spec fn is_empty(&self) -> bool {
        &&& self.falling_upgrades@.len() == 0
        &&& self.active_upgrades@.len() == 0
        &&& !self.magnet_active
        &&& !self.space_invader_active
    }

    pub fn new() -> (r: Upgrades)
        ensures
            r.wf(),
            r.is_empty(),
    {
        Upgrades {
            falling_upgrades: Vec::new(),
            active_upgrades: Vec::new(),
            magnet_active: false,
            space_invader_active: false,
        }
    }

    /// Drops a coin of a random kind from a destroyed block.
    pub fn spawn_upgrade(&mut self, originating_block: Rect)
        requires
            old(self).wf(),
            originating_block.wf(),
        ensures
            final(self).wf(),
            final(self).falling_upgrades@.len() == old(self).falling_upgrades@.len() + 1,
            final(self).falling_upgrades@.drop_last() == old(self).falling_upgrades@,
            final(self).falling_upgrades@.last().rect == originating_block,
            exists|i: int|
                0 <= i < 6 && final(self).falling_upgrades@.last().upgrade_type == upgrade_of_index(i),
            final(self).active_upgrades == old(self).active_upgrades,
            final(self).magnet_active == old(self).magnet_active,
            final(self).space_invader_active == old(self).space_invader_active,
    {
        let coin = UpgradeCoin::new(None, originating_block);
        self.falling_upgrades.push(coin);
        assert(self.falling_upgrades@.drop_last() =~= old(self).falling_upgrades@);
    }

    /// Moves every coin, collects every coin that touches the paddle, and
    /// drops the collected coins and those past the bottom of the screen.
    pub fn update(&mut self, player_rect: Rect, screen_height: i64)
        requires
            old(self).wf(),
            player_rect.wf(),
        ensures
            final(self).wf(),
            ({
                let moved = old(self).falling_upgrades@.map_values(
                    |c: UpgradeCoin| c.spec_moved(player_rect, old(self).magnet_active),
                );
                &&& final(self).falling_upgrades@ == kept(moved, player_rect, screen_height as int)
                &&& final(self).active_upgrades@ == old(self).active_upgrades@ + collected(
                    moved,
                    player_rect,
                )
            }),
            final(self).magnet_active == old(self).magnet_active,
            final(self).space_invader_active == old(self).space_invader_active,
    {
        let ghost moved = old(self).falling_upgrades@.map_values(
            |c: UpgradeCoin| c.spec_moved(player_rect, old(self).magnet_active),
        );
        let ghost active0 = self.active_upgrades@;
        let mut remaining: Vec<UpgradeCoin> = Vec::new();
        let n = self.falling_upgrades.len();
        let mut i: usize = 0;
        while i < n
            invariant
                n == self.falling_upgrades@.len(),
                0 <= i <= n,
                self.falling_upgrades@ == old(self).falling_upgrades@,
                self.magnet_active == old(self).magnet_active,
                self.space_invader_active == old(self).space_invader_active,
                moved == old(self).falling_upgrades@.map_values(
                    |c: UpgradeCoin| c.spec_moved(player_rect, old(self).magnet_active),
                ),
                old(self).wf(),
                player_rect.wf(),
                remaining@ == kept(moved.take(i as int), player_rect, screen_height as int),
                self.active_upgrades@ == active0 + collected(moved.take(i as int), player_rect),
                forall|k: int| 0 <= k < remaining@.len() ==> #[trigger] remaining@[k].rect.wf(),
            decreases n - i,
        {
            let c = self.falling_upgrades[i].moved(&player_rect, self.magnet_active);
            proof {
                assert(moved.take(i as int + 1).drop_last() =~= moved.take(i as int));
                assert(moved.take(i as int + 1).last() == c);
            }
            let touches = c.rect.overlaps(&player_rect);
            if touches {
                self.active_upgrades.push(c.upgrade_type);
                proof {
                    assert(self.active_upgrades@ =~= active0 + collected(moved.take(i as int + 1), player_rect));
                }
            } else {
                proof {
                    assert(self.active_upgrades@ =~= active0 + collected(moved.take(i as int + 1), player_rect));
                }
            }
            if c.rect.y < screen_height && !touches {
                remaining.push(c);
            }
            i = i + 1;
        }
        proof {
            assert(moved.take(n as int) =~= moved);
        }
        self.falling_upgrades = remaining;
    }

    /// Clears the coins, the collected kinds and the lasting effects.
    pub fn reset(&mut self)
        ensures
            final(self).wf(),
            final(self).is_empty(),
    {
        self.falling_upgrades.clear();
        self.active_upgrades.clear();
        self.magnet_active = false;
        self.space_invader_active = false;
    }
}

} // verus!
