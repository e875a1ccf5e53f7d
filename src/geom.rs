use vstd::prelude::*;

verus! {

/// World units per screen pixel.
pub const PIXEL: i64 = 1000;

/// Fixed-point length of a unit velocity vector.
pub const UNIT: i64 = 1000;

/// Coordinates are held within `-COORD_LIMIT ..= COORD_LIMIT`.
pub const COORD_LIMIT: i64 = 1_099_511_627_776;

/// Bound on each velocity component.
pub const VEL_LIMIT: i64 = 2000;

/// Bound on each component of a vector that can be normalized.
pub const DIR_LIMIT: i64 = 4_398_046_511_104;

/// A two-dimensional integer vector.
#[derive(Clone, Copy, Debug, PartialEq, Eq, Structural)]
pub struct Vec2 {
    pub x: i64,
    pub y: i64,
}

/// An axis-aligned rectangle with its top-left corner at `(x, y)`.
#[derive(Clone, Copy, Debug, PartialEq, Eq, Structural)]
pub struct Rect {
    pub x: i64,
    pub y: i64,
    pub w: i64,
    pub h: i64,
}

pub open spec fn coord_ok(v: int) -> bool {
    -COORD_LIMIT <= v <= COORD_LIMIT
}

pub open spec fn clamp_coord(v: int) -> int {
    if v < -COORD_LIMIT {
        -COORD_LIMIT as int
    } else if v > COORD_LIMIT {
        COORD_LIMIT as int
    } else {
        v
    }
}

pub open spec fn min_int(a: int, b: int) -> int {
    if a <= b { a } else { b }
}

pub open spec fn max_int(a: int, b: int) -> int {
    if a >= b { a } else { b }
}

pub open spec fn sign(v: int) -> int {
    if v > 0 { 1 } else if v < 0 { -1 } else { 0 }
}

pub open spec fn abs_int(v: int) -> int {
    if v < 0 { -v } else { v }
}

impl Vec2 {
    /// Both components lie within the bound for normalizing.
    pub open spec fn normalizable(self) -> bool {
        -DIR_LIMIT <= self.x <= DIR_LIMIT && -DIR_LIMIT <= self.y <= DIR_LIMIT
    }

    /// Both components lie within the velocity bound.
    pub open spec fn bounded(self) -> bool {
        -VEL_LIMIT <= self.x <= VEL_LIMIT && -VEL_LIMIT <= self.y <= VEL_LIMIT
    }

    pub open spec fn sq_len(self) -> int {
        self.x * self.x + self.y * self.y
    }
}

impl Rect {
    /// A rectangle with positive size, everything within the coordinate bound.
    pub open spec fn wf(self) -> bool {
        &&& coord_ok(self.x as int)
        &&& coord_ok(self.y as int)
        &&& 0 < self.w <= COORD_LIMIT
        &&& 0 < self.h <= COORD_LIMIT
    }

    pub open spec fn right(self) -> int {
        self.x + self.w
    }

    pub open spec fn bottom(self) -> int {
        self.y + self.h
    }

    /// Twice the centre, so that it stays an integer.
    pub open spec fn center2(self) -> (int, int) {
        (2 * self.x + self.w, 2 * self.y + self.h)
    }

    pub open spec fn spec_new(x: i64, y: i64, w: i64, h: i64) -> Rect {
        Rect { x, y, w, h }
    }

    pub fn new(x: i64, y: i64, w: i64, h: i64) -> (r: Rect)
        ensures
            r == Rect::spec_new(x, y, w, h),
    {
        Rect { x, y, w, h }
    }

    /// Whether the closed boxes of `self` and `other` share a point.
    pub open spec fn spec_overlaps(self, other: Rect) -> bool {
        &&& max_int(self.x as int, other.x as int) <= min_int(self.right(), other.right())
        &&& max_int(self.y as int, other.y as int) <= min_int(self.bottom(), other.bottom())
    }

    /// The common part of two rectangles; touching rectangles share an empty
    /// strip of zero width or height.
    pub open spec fn spec_intersect(self, other: Rect) -> Option<Rect> {
        if self.spec_overlaps(other) {
            let left = max_int(self.x as int, other.x as int);
            let top = max_int(self.y as int, other.y as int);
            Some(
                Rect {
                    x: left as i64,
                    y: top as i64,
                    w: (min_int(self.right(), other.right()) - left) as i64,
                    h: (min_int(self.bottom(), other.bottom()) - top) as i64,
                },
            )
        } else {
            None
        }
    }

    pub fn intersect(&self, other: &Rect) -> (r: Option<Rect>)
        requires
            self.wf(),
            other.wf(),
        ensures
            r == self.spec_intersect(*other),
            r is Some ==> 0 <= r->0.w <= self.w && 0 <= r->0.h <= self.h,
    {
        let left = if self.x >= other.x { self.x } else { other.x };
        let top = if self.y >= other.y { self.y } else { other.y };
        let sr = self.x + self.w;
        let orr = other.x + other.w;
        let right = if sr <= orr { sr } else { orr };
        let sb = self.y + self.h;
        let ob = other.y + other.h;
        let bottom = if sb <= ob { sb } else { ob };
        if right < left || bottom < top {
            None
        } else {
            Some(Rect { x: left, y: top, w: right - left, h: bottom - top })
        }
    }

    pub fn overlaps(&self, other: &Rect) -> (r: bool)
        requires
            self.wf(),
            other.wf(),
        ensures
            r == self.spec_overlaps(*other),
    {
        self.intersect(other).is_some()
    }
}

/// Keeps a coordinate within the coordinate bound.
pub fn clamp(v: i128) -> (r: i64)
    ensures
        r == clamp_coord(v as int),
{
    if v < -(COORD_LIMIT as i128) {
        -COORD_LIMIT
    } else if v > COORD_LIMIT as i128 {
        COORD_LIMIT
    } else {
        v as i64
    }
}

/// The integer square root: the largest `r` with `r * r <= n`.
pub open spec fn is_isqrt(n: int, r: int) -> bool {
    0 <= r && r * r <= n < (r + 1) * (r + 1)
}

pub fn isqrt(n: u128) -> (r: u128)
    ensures
        is_isqrt(n as int, r as int),
{
    // invariant: lo * lo <= n < hi * hi
    let mut lo: u128 = 0;
    let mut hi: u128 = 18_446_744_073_709_551_616;
    assert(n < 18_446_744_073_709_551_616u128 * 18_446_744_073_709_551_616u128) by (nonlinear_arith);
    while hi - lo > 1
        invariant
            lo < hi <= 18_446_744_073_709_551_616,
            lo * lo <= n,
            n < hi * hi,
        decreases hi - lo,
    {
        let mid = lo + (hi - lo) / 2;
        assert(mid < 18_446_744_073_709_551_616);
        let m = mid as u64;
        assert((m as u128) * (m as u128) < 18_446_744_073_709_551_616u128 * 18_446_744_073_709_551_616u128)
            by (nonlinear_arith);
        if (m as u128) * (m as u128) <= n {
            lo = mid;
        } else {
            hi = mid;
        }
    }
    assert(hi == lo + 1);
    lo
}

proof fn lemma_component_within_root(a: int, b: int, r: int)
    requires
        is_isqrt(a * a + b * b, r),
    ensures
        abs_int(a) <= r,
{
    assert(b * b >= 0) by (nonlinear_arith);
    if abs_int(a) > r {
        assert(abs_int(a) * abs_int(a) >= (r + 1) * (r + 1)) by (nonlinear_arith)
            requires
                abs_int(a) >= r + 1,
                r >= 0,
        ;
        assert(abs_int(a) * abs_int(a) == a * a) by (nonlinear_arith);
    }
}

/// The integer square root of `n`.
pub open spec fn root_of(n: int) -> int {
    choose|r: int| is_isqrt(n, r)
}

proof fn lemma_isqrt_exists(n: int)
    requires
        n >= 0,
    ensures
        is_isqrt(n, root_of(n)),
    decreases n,
{
    if n == 0 {
        assert(is_isqrt(0, 0));
    } else {
        lemma_isqrt_exists(n - 1);
        let r = root_of(n - 1);
        if (r + 1) * (r + 1) <= n {
            assert((r + 2) * (r + 2) > n) by (nonlinear_arith)
                requires
                    r * r <= n - 1,
                    r >= 0,
                    (r + 1) * (r + 1) <= n,
                    n - 1 < (r + 1) * (r + 1),
            ;
            assert(is_isqrt(n, r + 1));
        } else {
            assert(is_isqrt(n, r));
        }
    }
}

/// Bounds of the squared rounded component `c = a * UNIT / len` against `a`.
proof fn lemma_scaled_square(a: int, len: int, c: int)
    requires
        a >= 0,
        len > 0,
        c == a * UNIT / len,
    ensures
        len * len * (c * c) <= a * a * (UNIT * UNIT),
        a * a * (UNIT * UNIT) < len * len * ((c + 1) * (c + 1)),
        0 <= c,
{
    assert(len * c <= a * UNIT < len * (c + 1) && c >= 0) by (nonlinear_arith)
        requires
            a >= 0,
            len > 0,
            c == a * UNIT / len,
    ;
    assert(len * len * (c * c) == (len * c) * (len * c)) by (nonlinear_arith);
    assert(len * len * ((c + 1) * (c + 1)) == (len * (c + 1)) * (len * (c + 1))) by (nonlinear_arith);
    assert(a * a * (UNIT * UNIT) == (a * UNIT) * (a * UNIT)) by (nonlinear_arith);
    assert((len * c) * (len * c) <= (a * UNIT) * (a * UNIT)) by (nonlinear_arith)
        requires
            0 <= len * c <= a * UNIT,
    ;
    assert((a * UNIT) * (a * UNIT) < (len * (c + 1)) * (len * (c + 1))) by (nonlinear_arith)
        requires
            0 <= a * UNIT < len * (c + 1),
    ;
}

/// Normalizing keeps the length `UNIT` up to rounding: the squared length of
/// a normalized nonzero vector lies within `UNIT * UNIT - 4 * UNIT - 2` and
/// `UNIT * UNIT + 2 * UNIT + 2`.
pub proof fn lemma_normalized_length(v: Vec2)
    requires
        v.x != 0 || v.y != 0,
    ensures
        UNIT * UNIT - 4 * UNIT - 2 <= spec_normalize(v).sq_len() <= UNIT * UNIT + 2 * UNIT + 2,
{
    let ax = v.x * UNIT;
    let ay = v.y * UNIT;
    let n = ax * ax + ay * ay;
    assert(ax * ax >= 0 && ay * ay >= 0) by (nonlinear_arith);
    lemma_isqrt_exists(n);
    let len = root_of(n);
    let a = abs_int(ax);
    let b = abs_int(ay);
    assert(a * a == ax * ax) by (nonlinear_arith)
        requires
            a == ax || a == -ax,
    ;
    assert(b * b == ay * ay) by (nonlinear_arith)
        requires
            b == ay || b == -ay,
    ;
    assert(n >= UNIT * UNIT) by (nonlinear_arith)
        requires
            n == a * a + b * b,
            a >= UNIT || b >= UNIT,
            a >= 0,
            b >= 0,
    ;
    assert(len >= UNIT) by (nonlinear_arith)
        requires
            n >= UNIT * UNIT,
            n < (len + 1) * (len + 1),
            len >= 0,
    ;
    let cx = a * UNIT / len;
    let cy = b * UNIT / len;
    lemma_scaled_square(a, len, cx);
    lemma_scaled_square(b, len, cy);
    let r = spec_normalize(v);
    lemma_component_within_root(ax, ay, len);
    assert(ay * ay + ax * ax == n);
    lemma_component_within_root(ay, ax, len);
    lemma_scale_bounded(ax, len);
    lemma_scale_bounded(ay, len);
    let mx = abs_int(r.x as int);
    let my = abs_int(r.y as int);
    assert(mx == cx || (cx == 0 && mx == 1));
    assert(my == cy || (cy == 0 && my == 1));
    assert(r.x * r.x == mx * mx) by (nonlinear_arith)
        requires
            mx == r.x || mx == -r.x,
    ;
    assert(r.y * r.y == my * my) by (nonlinear_arith)
        requires
            my == r.y || my == -r.y,
    ;
    assert(cx * cx <= mx * mx <= cx * cx + 1) by (nonlinear_arith)
        requires
            mx == cx || (cx == 0 && mx == 1),
    ;
    assert(cy * cy <= my * my <= cy * cy + 1) by (nonlinear_arith)
        requires
            my == cy || (cy == 0 && my == 1),
    ;
    let s = cx * cx + cy * cy;
    let l2 = len * len;
    assert(l2 * s <= n * (UNIT * UNIT)) by (nonlinear_arith)
        requires
            l2 * (cx * cx) <= a * a * (UNIT * UNIT),
            l2 * (cy * cy) <= b * b * (UNIT * UNIT),
            n == a * a + b * b,
            s == cx * cx + cy * cy,
    ;
    assert(n * (UNIT * UNIT) < l2 * ((cx + 1) * (cx + 1) + (cy + 1) * (cy + 1))) by (nonlinear_arith)
        requires
            a * a * (UNIT * UNIT) < l2 * ((cx + 1) * (cx + 1)),
            b * b * (UNIT * UNIT) < l2 * ((cy + 1) * (cy + 1)),
            n == a * a + b * b,
    ;
    // upper bound: s * len^2 <= n * UNIT^2 < (len + 1)^2 * UNIT^2 <= len^2 * (UNIT + 1)^2
    assert(s < (UNIT + 1) * (UNIT + 1)) by (nonlinear_arith)
        requires
            l2 * s <= n * (UNIT * UNIT),
            n < (len + 1) * (len + 1),
            len >= UNIT,
            l2 == len * len,
            s >= 0,
    ;
    // lower bound: len^2 * UNIT^2 <= n * UNIT^2 < len^2 * ((cx + 1)^2 + (cy + 1)^2)
    assert(UNIT * UNIT < (cx + 1) * (cx + 1) + (cy + 1) * (cy + 1)) by (nonlinear_arith)
        requires
            n * (UNIT * UNIT) < l2 * ((cx + 1) * (cx + 1) + (cy + 1) * (cy + 1)),
            l2 <= n,
            l2 == len * len,
            len >= UNIT,
    ;
    assert(cx <= UNIT && cy <= UNIT) by (nonlinear_arith)
        requires
            cx == a * UNIT / len,
            cy == b * UNIT / len,
            a * a + b * b == n,
            n < (len + 1) * (len + 1),
            a >= 0,
            b >= 0,
            len >= UNIT,
    ;
    assert((cx + 1) * (cx + 1) + (cy + 1) * (cy + 1) == s + 2 * cx + 2 * cy + 2) by (nonlinear_arith)
        requires
            s == cx * cx + cy * cy,
    ;
    assert(s <= r.sq_len() <= s + 2);
}

/// `a * UNIT / len` for `a > 0`, rounded down but to no less than one, so
/// that a nonzero component stays nonzero.
pub open spec fn scaled_magnitude(a: int, len: int) -> int {
    let q = a * UNIT / len;
    if q < 1 { 1 } else { q }
}

/// `v * UNIT / len` with the sign of `v`, rounded toward zero except that a
/// nonzero `v` gives a nonzero result.
pub open spec fn scale_to_unit(v: int, len: int) -> int {
    if v > 0 {
        scaled_magnitude(v, len)
    } else if v < 0 {
        -scaled_magnitude(-v, len)
    } else {
        0
    }
}

/// The vector scaled to length `UNIT`, each component rounded toward zero;
/// the zero vector stays zero. The components are first multiplied by `UNIT`
/// so that the integer square root is precise.
pub open spec fn spec_normalize(v: Vec2) -> Vec2 {
    let ax = v.x * UNIT;
    let ay = v.y * UNIT;
    let len = root_of(ax * ax + ay * ay);
    if v.x == 0 && v.y == 0 {
        v
    } else {
        Vec2 { x: scale_to_unit(ax, len) as i64, y: scale_to_unit(ay, len) as i64 }
    }
}

proof fn lemma_isqrt_unique(n: int, r1: int, r2: int)
    requires
        is_isqrt(n, r1),
        is_isqrt(n, r2),
    ensures
        r1 == r2,
{
    if r1 < r2 {
        assert((r1 + 1) * (r1 + 1) <= r2 * r2) by (nonlinear_arith)
            requires
                0 <= r1 + 1 <= r2,
        ;
    } else if r2 < r1 {
        assert((r2 + 1) * (r2 + 1) <= r1 * r1) by (nonlinear_arith)
            requires
                0 <= r2 + 1 <= r1,
        ;
    }
}

proof fn lemma_scale_bounded(v: int, len: int)
    requires
        abs_int(v) <= len,
        len > 0,
    ensures
        abs_int(scale_to_unit(v, len)) <= UNIT,
        sign(scale_to_unit(v, len)) == sign(v),
{
    let a = abs_int(v);
    assert(a * UNIT / len <= UNIT) by (nonlinear_arith)
        requires
            0 <= a <= len,
            len > 0,
    ;
    assert(a * UNIT / len >= 0) by (nonlinear_arith)
        requires
            0 <= a,
            len > 0,
    ;
}

fn scale_component(v: i64, len: u128) -> (r: i64)
    requires
        abs_int(v as int) <= len,
        len > 0,
        -DIR_LIMIT * UNIT <= v <= DIR_LIMIT * UNIT,
    ensures
        r == scale_to_unit(v as int, len as int),
        -UNIT <= r <= UNIT,
{
    proof {
        lemma_scale_bounded(v as int, len as int);
    }
    if v > 0 {
        let q = (v as u128) * (UNIT as u128) / len;
        if q < 1 { 1 } else { q as i64 }
    } else if v < 0 {
        let q = ((-v) as u128) * (UNIT as u128) / len;
        if q < 1 { -1 } else { -(q as i64) }
    } else {
        0
    }
}

/// Scales a vector to length `UNIT` (up to rounding of each component).
pub fn normalize(v: Vec2) -> (r: Vec2)
    requires
        v.normalizable(),
    ensures
        r == spec_normalize(v),
        -UNIT <= r.x <= UNIT,
        -UNIT <= r.y <= UNIT,
        sign(r.x as int) == sign(v.x as int),
        sign(r.y as int) == sign(v.y as int),
{
    if v.x == 0 && v.y == 0 {
        return v;
    }
    let ax = v.x * UNIT;
    let ay = v.y * UNIT;
    let bx: i128 = ax as i128;
    let by: i128 = ay as i128;
    assert(bx * bx <= 19_342_813_113_834_066_795_298_816_000_000 && by * by
        <= 19_342_813_113_834_066_795_298_816_000_000) by (nonlinear_arith)
        requires
            -4_398_046_511_104_000 <= bx <= 4_398_046_511_104_000,
            -4_398_046_511_104_000 <= by <= 4_398_046_511_104_000,
    ;
    assert(bx * bx >= 0 && by * by >= 0) by (nonlinear_arith);
    let sq = (bx * bx + by * by) as u128;
    let len = isqrt(sq);
    proof {
        let n = ax * ax + ay * ay;
        assert(is_isqrt(n, len as int));
        lemma_isqrt_unique(n, root_of(n), len as int);
        lemma_component_within_root(ax as int, ay as int, len as int);
        assert(ay * ay + ax * ax == n);
        lemma_component_within_root(ay as int, ax as int, len as int);
        lemma_scale_bounded(ax as int, len as int);
        lemma_scale_bounded(ay as int, len as int);
        if len == 0 {
            assert(ax * ax > 0 || ay * ay > 0) by (nonlinear_arith)
                requires
                    ax != 0 || ay != 0,
            ;
        }
    }
    Vec2 { x: scale_component(ax, len), y: scale_component(ay, len) }
}
} // verus!
