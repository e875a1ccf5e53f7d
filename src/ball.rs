use vstd::prelude::*;
use crate::geom::{
    abs_int, clamp, clamp_coord, coord_ok, lemma_normalized_length, normalize, sign, spec_normalize, Rect, Vec2, COORD_LIMIT,
    UNIT, VEL_LIMIT,
};
use crate::random::random_range;

verus! {

/// Microseconds per second: `dt` arguments are given in microseconds.
pub const MICROS: i64 = 1_000_000;

/// Colours the game draws with.
#[derive(Clone, Copy, Debug, PartialEq, Eq, Structural)]
pub enum Color {
    Red,
    Orange,
    Black,
    Green,
    Lime,
    Gold,
    Blue,
    Pink,
    SkyBlue,
    Purple,
    Violet,
}

/// A moving square; a super ball destroys a block in one hit.
#[derive(Clone, Copy, Debug, PartialEq, Eq, Structural)]
pub struct Ball {
    pub rect: Rect,
    pub vel: Vec2,
    pub speed: i64,
    pub super_ball: bool,
}

/// The direction a ball starts in: `(d, 1)` scaled to unit length.
pub open spec fn launch_direction(d: int) -> Vec2 {
    spec_normalize(Vec2 { x: d as i64, y: UNIT })
}

/// The distance travelled along one velocity component in `dt` microseconds,
/// rounded toward zero.
pub open spec fn step(v: int, speed: int, dt: int) -> int {
    if v >= 0 {
        v * speed * dt / (UNIT * MICROS)
    } else {
        -((-v) * speed * dt / (UNIT * MICROS))
    }
}

fn step_exec(v: i64, speed: i64, dt: u32) -> (r: i128)
    requires
        -VEL_LIMIT <= v <= VEL_LIMIT,
        0 <= speed <= COORD_LIMIT,
    ensures
        r == step(v as int, speed as int, dt as int),
        -COORD_LIMIT * 16384 <= r <= COORD_LIMIT * 16384,
{
    let a: u128 = if v >= 0 { v as u128 } else { (-v) as u128 };
    assert(a * (speed as u128) <= 2000 * COORD_LIMIT) by (nonlinear_arith)
        requires
            a <= 2000,
            0 <= speed <= COORD_LIMIT,
    ;
    let p1 = a * (speed as u128);
    assert(p1 * (dt as u128) <= 2000 * COORD_LIMIT * 4_294_967_296) by (nonlinear_arith)
        requires
            p1 <= 2000 * COORD_LIMIT,
            dt <= 4_294_967_295u32,
    ;
    let p = p1 * (dt as u128);
    let q = p / ((UNIT * MICROS) as u128);
    assert(q <= COORD_LIMIT * 16384) by (nonlinear_arith)
        requires
            q == p / 1_000_000_000,
            p <= 2000 * COORD_LIMIT * 4_294_967_296,
    ;
    if v >= 0 {
        q as i128
    } else {
        -(q as i128)
    }
}

/// `v` moved by `d` against the direction of sign `s`.
pub open spec fn push_back(v: int, s: int, d: int) -> int {
    v - s * d
}

/// A velocity component of magnitude `|v|` pointing against sign `s`
/// (zero when `s` is zero).
pub open spec fn away(s: int, v: int) -> int {
    -s * abs_int(v)
}

/// A bounce turns a moving ball away from the body it hit: the new velocity
/// component points against the direction toward the body.
pub proof fn lemma_bounce_turns_away(s: int, v: int)
    requires
        s == 1 || s == -1,
        v != 0,
    ensures
        sign(away(s, v)) == -s,
{
    if s == 1 {
        assert(away(s, v) == -abs_int(v));
    } else {
        assert(away(s, v) == abs_int(v));
    }
}

/// After an update step a moving ball has unit speed up to rounding, whether
/// or not a wall turned it: the squared length of its velocity lies within
/// `UNIT * UNIT - 4 * UNIT - 2` and `UNIT * UNIT + 2 * UNIT + 2`.
pub proof fn lemma_update_keeps_unit_speed(b: Ball, dt: int, screen_width: int)
    requires
        b.vel.x != 0 || b.vel.y != 0,
    ensures
        UNIT * UNIT - 4 * UNIT - 2 <= b.spec_update(dt, screen_width).vel.sq_len() <= UNIT * UNIT + 2
            * UNIT + 2,
{
    let nx = clamp_coord(b.rect.x + step(b.vel.x as int, b.speed as int, dt));
    let ny = clamp_coord(b.rect.y + step(b.vel.y as int, b.speed as int, dt));
    let vx1 = if nx < 0 { UNIT as int } else { b.vel.x as int };
    let vx = if nx + b.rect.w > screen_width { -UNIT as int } else { vx1 };
    let vy = if ny < 0 { UNIT as int } else { b.vel.y as int };
    lemma_normalized_length(Vec2 { x: vx as i64, y: vy as i64 });
}

impl Ball {
    /// Sizes, speed and velocity lie within their bounds.
    pub open spec fn wf(self) -> bool {
        &&& self.rect.wf()
        &&& self.vel.bounded()
        &&& 0 <= self.speed <= COORD_LIMIT
    }

    /// A new ball with its top-left corner at `position`.
    pub open spec fn spawned(self, position: Vec2, size: i64, speed: i64, super_ball: bool) -> bool {
        &&& self.rect == Rect::spec_new(position.x, position.y, size, size)
        &&& self.speed == speed
        &&& self.super_ball == super_ball
        &&& exists|d: int| -UNIT <= d < UNIT && self.vel == launch_direction(d)
    }

    /// A normal ball heading down at a random angle.
    pub fn new(position: Vec2, size: i64, speed: i64) -> (r: Ball)
        requires
            coord_ok(position.x as int),
            coord_ok(position.y as int),
            0 < size <= COORD_LIMIT,
            0 <= speed <= COORD_LIMIT,
        ensures
            r.wf(),
            r.spawned(position, size, speed, false),
    {
        Ball::with_random_direction(position, size, speed, false)
    }

    /// A super ball heading down at a random angle.
    pub fn new_super_ball(position: Vec2, size: i64, speed: i64) -> (r: Ball)
        requires
            coord_ok(position.x as int),
            coord_ok(position.y as int),
            0 < size <= COORD_LIMIT,
            0 <= speed <= COORD_LIMIT,
        ensures
            r.wf(),
            r.spawned(position, size, speed, true),
    {
        Ball::with_random_direction(position, size, speed, true)
    }

    /// A ball of either kind heading down at a random angle.
    pub fn with_random_direction(position: Vec2, size: i64, speed: i64, super_ball: bool) -> (r: Ball)
        requires
            coord_ok(position.x as int),
            coord_ok(position.y as int),
            0 < size <= COORD_LIMIT,
            0 <= speed <= COORD_LIMIT,
        ensures
            r.wf(),
            r.spawned(position, size, speed, super_ball),
    {
        let d = random_range(0, 2000) as i64 - UNIT;
        let r = Ball::with_direction(position, size, speed, super_ball, d);
        assert(-UNIT <= d < UNIT && r.vel == launch_direction(d as int));
        r
    }

    /// A ball heading along `launch_direction(d)`.
    pub fn with_direction(position: Vec2, size: i64, speed: i64, super_ball: bool, d: i64) -> (r: Ball)
        requires
            coord_ok(position.x as int),
            coord_ok(position.y as int),
            0 < size <= COORD_LIMIT,
            0 <= speed <= COORD_LIMIT,
            -UNIT <= d <= UNIT,
        ensures
            r.wf(),
            r.rect == Rect::spec_new(position.x, position.y, size, size),
            r.speed == speed,
            r.super_ball == super_ball,
            r.vel == launch_direction(d as int),
    {
        Ball {
            rect: Rect::new(position.x, position.y, size, size),
            vel: normalize(Vec2 { x: d, y: UNIT }),
            speed,
            super_ball,
        }
    }

    /// Points the ball in a fresh random downward direction.
    pub fn random_direction(&mut self)
        requires
            old(self).wf(),
        ensures
            final(self).wf(),
            final(self).rect == old(self).rect,
            final(self).speed == old(self).speed,
            final(self).super_ball == old(self).super_ball,
            exists|d: int| -UNIT <= d < UNIT && final(self).vel == launch_direction(d),
    {
        let d = random_range(0, 2000) as i64 - UNIT;
        self.vel = normalize(Vec2 { x: d, y: UNIT });
        assert(-UNIT <= d < UNIT && self.vel == launch_direction(d as int));
    }

    /// The ball after one update step of `dt` microseconds on a screen
    /// `screen_width` units wide.
    pub open spec fn spec_update(self, dt: int, screen_width: int) -> Ball {
        let nx = clamp_coord(self.rect.x + step(self.vel.x as int, self.speed as int, dt));
        let ny = clamp_coord(self.rect.y + step(self.vel.y as int, self.speed as int, dt));
        let vx1 = if nx < 0 { UNIT as int } else { self.vel.x as int };
        let vx = if nx + self.rect.w > screen_width { -UNIT as int } else { vx1 };
        let vy = if ny < 0 { UNIT as int } else { self.vel.y as int };
        Ball {
            rect: Rect { x: nx as i64, y: ny as i64, ..self.rect },
            vel: spec_normalize(Vec2 { x: vx as i64, y: vy as i64 }),
            ..self
        }
    }

    /// Moves the ball, turns it back from the left, right and top walls, and
    /// rescales its velocity to unit length.
    pub fn update(&mut self, dt: u32, screen_width: i64)
        requires
            old(self).wf(),
        ensures
            *final(self) == old(self).spec_update(dt as int, screen_width as int),
            final(self).wf(),
            -UNIT <= final(self).vel.x <= UNIT,
            -UNIT <= final(self).vel.y <= UNIT,
            final(self).rect.x < 0 && final(self).rect.right() <= screen_width
                ==> final(self).vel.x > 0,
            final(self).rect.right() > screen_width ==> final(self).vel.x < 0,
            final(self).rect.y < 0 ==> final(self).vel.y > 0,
            final(self).rect.y >= 0 ==> sign(final(self).vel.y as int) == sign(old(self).vel.y as int),
            final(self).rect.x >= 0 && final(self).rect.right() <= screen_width ==> sign(
                final(self).vel.x as int,
            ) == sign(old(self).vel.x as int),
    {
        let dx = step_exec(self.vel.x, self.speed, dt);
        let dy = step_exec(self.vel.y, self.speed, dt);
        self.rect.x = clamp(self.rect.x as i128 + dx);
        self.rect.y = clamp(self.rect.y as i128 + dy);
        let mut vx = self.vel.x;
        let mut vy = self.vel.y;
        if self.rect.x < 0 {
            vx = UNIT;
        }
        if self.rect.x as i128 + self.rect.w as i128 > screen_width as i128 {
            vx = -UNIT;
        }
        if self.rect.y < 0 {
            vy = UNIT;
        }
        self.vel = normalize(Vec2 { x: vx, y: vy });
    }

    /// The ball after resolving a collision with `body`, and whether there
    /// was one. The collision is vertical when the overlap is wider than tall.
    pub open spec fn spec_bounce(self, body: Rect, jitter: int) -> (Ball, bool) {
        match self.rect.spec_intersect(body) {
            None => (self, false),
            Some(i) => {
                let sx = sign(body.center2().0 - self.rect.center2().0);
                let sy = sign(body.center2().1 - self.rect.center2().1);
                if i.w > i.h {
                    (
                        Ball {
                            rect: Rect { y: clamp_coord(push_back(self.rect.y as int, sy, i.h as int)) as i64, ..self.rect },
                            vel: Vec2 {
                                x: (self.vel.x + jitter) as i64,
                                y: away(sy, self.vel.y as int) as i64,
                            },
                            ..self
                        },
                        true,
                    )
                } else {
                    (
                        Ball {
                            rect: Rect { x: clamp_coord(push_back(self.rect.x as int, sx, i.w as int)) as i64, ..self.rect },
                            vel: Vec2 { x: away(sx, self.vel.x as int) as i64, ..self.vel },
                            ..self
                        },
                        true,
                    )
                }
            },
        }
    }

    /// Resolves a collision with `body`: pushes the ball out along the axis
    /// of least overlap and sends it away from `body` on that axis. A vertical
    /// bounce adds `jitter` to the horizontal velocity.
    pub fn bounce(&mut self, body: &Rect, jitter: i64) -> (r: bool)
        requires
            old(self).wf(),
            body.wf(),
            0 <= jitter,
            old(self).vel.x + jitter <= VEL_LIMIT,
        ensures
            r == old(self).spec_bounce(*body, jitter as int).1,
            final(self).rect == old(self).spec_bounce(*body, jitter as int).0.rect,
            final(self).vel.x == old(self).spec_bounce(*body, jitter as int).0.vel.x,
            final(self).vel.y == old(self).spec_bounce(*body, jitter as int).0.vel.y,
            final(self).speed == old(self).spec_bounce(*body, jitter as int).0.speed,
            final(self).super_ball == old(self).spec_bounce(*body, jitter as int).0.super_ball,
            *final(self) == old(self).spec_bounce(*body, jitter as int).0,
            final(self).wf(),
            !old(self).rect.spec_overlaps(*body) ==> !r && *final(self) == *old(self),
            old(self).rect.spec_overlaps(*body) ==> r,
            ({
                let i = old(self).rect.spec_intersect(*body)->0;
                let to = (
                    body.center2().0 - old(self).rect.center2().0,
                    body.center2().1 - old(self).rect.center2().1,
                );
                &&& r && i.w > i.h ==> final(self).vel.y == away(sign(to.1), old(self).vel.y as int)
                    && final(self).vel.x == old(self).vel.x + jitter
                &&& r && i.w <= i.h ==> final(self).vel.x == away(sign(to.0), old(self).vel.x as int)
                    && final(self).vel.y == old(self).vel.y
            }),
    {
        match self.rect.intersect(body) {
            None => false,
            Some(i) => {
                let a = (2 * self.rect.x as i128 + self.rect.w as i128, 2 * self.rect.y as i128
                    + self.rect.h as i128);
                let b = (2 * body.x as i128 + body.w as i128, 2 * body.y as i128 + body.h as i128);
                if i.w > i.h {
                    // move against the direction towards `body`
                    let y = self.rect.y as i128;
                    let h = i.h as i128;
                    let vy = self.vel.y;
                    let off: i64 = if vy < 0 { vy } else { -vy };
                    if b.1 > a.1 {
                        assert(sign(body.center2().1 - self.rect.center2().1) == 1);
                        assert(away(1, vy as int) == off) by (nonlinear_arith)
                            requires
                                off == -abs_int(vy as int),
                        ;
                        self.rect.y = clamp(y - h);
                        self.vel.y = off;
                    } else if b.1 < a.1 {
                        assert(sign(body.center2().1 - self.rect.center2().1) == -1);
                        assert(away(-1, vy as int) == -off) by (nonlinear_arith)
                            requires
                                off == -abs_int(vy as int),
                        ;
                        self.rect.y = clamp(y + h);
                        self.vel.y = -off;
                    } else {
                        assert(sign(body.center2().1 - self.rect.center2().1) == 0);
                        assert(away(0, vy as int) == 0) by (nonlinear_arith);
                        self.rect.y = clamp(y);
                        self.vel.y = 0;
                    }
                    self.vel.x = self.vel.x + jitter;
                } else {
                    let x = self.rect.x as i128;
                    let w = i.w as i128;
                    let vx = self.vel.x;
                    let off: i64 = if vx < 0 { vx } else { -vx };
                    if b.0 > a.0 {
                        assert(sign(body.center2().0 - self.rect.center2().0) == 1);
                        assert(away(1, vx as int) == off) by (nonlinear_arith)
                            requires
                                off == -abs_int(vx as int),
                        ;
                        self.rect.x = clamp(x - w);
                        self.vel.x = off;
                    } else if b.0 < a.0 {
                        assert(sign(body.center2().0 - self.rect.center2().0) == -1);
                        assert(away(-1, vx as int) == -off) by (nonlinear_arith)
                            requires
                                off == -abs_int(vx as int),
                        ;
                        self.rect.x = clamp(x + w);
                        self.vel.x = -off;
                    } else {
                        assert(sign(body.center2().0 - self.rect.center2().0) == 0);
                        assert(away(0, vx as int) == 0) by (nonlinear_arith);
                        self.rect.x = clamp(x);
                        self.vel.x = 0;
                    }
                }
                true
            },
        }
    }

    /// Super balls are gold, others blue.
    pub fn color(&self) -> (r: Color)
        ensures
            r == (if self.super_ball { Color::Gold } else { Color::Blue }),
    {
        if self.super_ball {
            Color::Gold
        } else {
            Color::Blue
        }
    }
}

} // verus!
