//! Fixed-point 2D vectors.
//!
//! World coordinates are integers; one world unit is `SCALE` coordinate
//! steps.  All geometry the simulation needs (squared distances, an integer
//! square root, rescaling a vector to a target length) is provided here with
//! exact contracts, so the updaters can reason about positions and
//! velocities without any floating point.

use vstd::prelude::*;

verus! {

/// Coordinate steps per world unit.
pub const SCALE: i64 = 1_000_000;

/// A 2D vector (or point) in fixed-point world coordinates.
#[derive(Clone, Copy, PartialEq, Eq, Structural, Debug)]
pub struct V2 {
    pub x: i64,
    pub y: i64,
}

/// Squared Euclidean length, as a mathematical integer.
pub open spec fn norm_sq(v: V2) -> int {
    v.x * v.x + v.y * v.y
}

/// Both components of `v` lie in `[-b, b]`.
pub open spec fn in_box(v: V2, b: int) -> bool {
    -b <= v.x <= b && -b <= v.y <= b
}

/// Squared Euclidean distance between two points, as a mathematical integer.
pub open spec fn dist_sq(a: V2, b: V2) -> int {
    (a.x - b.x) * (a.x - b.x) + (a.y - b.y) * (a.y - b.y)
}

/// `r` is the least nonnegative integer whose square is at least `n`.
pub open spec fn is_sqrt_ceil(n: int, r: int) -> bool {
    &&& r >= 0
    &&& r * r >= n
    &&& (r > 0 ==> (r - 1) * (r - 1) < n)
}

/// The least nonnegative integer whose square is at least `n`.
pub open spec fn sqrt_ceil(n: int) -> int {
    choose|r: int| is_sqrt_ceil(n, r)
}

/// `c` scaled by the ratio `t / l`, rounding the magnitude down.
pub open spec fn scaled(c: int, t: int, l: int) -> int {
    if c >= 0 {
        (c * t) / l
    } else {
        -(((-c) * t) / l)
    }
}

/// The rounding-ceiling square root is unique.
pub proof fn lemma_sqrt_ceil_unique(n: int, r1: int, r2: int)
    by (nonlinear_arith)
    requires
        is_sqrt_ceil(n, r1),
        is_sqrt_ceil(n, r2),
    ensures
        r1 == r2,
{
}

/// Any witness of `is_sqrt_ceil` is the value of `sqrt_ceil`.
pub proof fn lemma_sqrt_ceil_is(n: int, r: int)
    requires
        is_sqrt_ceil(n, r),
    ensures
        sqrt_ceil(n) == r,
{
    assert(is_sqrt_ceil(n, sqrt_ceil(n))) by {
        assert(exists|q: int| is_sqrt_ceil(n, q));
    }
    lemma_sqrt_ceil_unique(n, r, sqrt_ceil(n));
}

impl V2 {
    /// The zero vector.
    pub open spec fn spec_zero() -> V2 {
        V2 { x: 0, y: 0 }
    }

    pub fn zero() -> (r: V2)
        ensures
            r == V2::spec_zero(),
    {
        V2 { x: 0, y: 0 }
    }

    /// Componentwise sum.
    pub fn add(self, o: V2) -> (r: V2)
        requires
            i64::MIN <= self.x + o.x <= i64::MAX,
            i64::MIN <= self.y + o.y <= i64::MAX,
        ensures
            r.x == self.x + o.x,
            r.y == self.y + o.y,
    {
        V2 { x: self.x + o.x, y: self.y + o.y }
    }

    /// Componentwise difference.
    pub fn sub(self, o: V2) -> (r: V2)
        requires
            i64::MIN <= self.x - o.x <= i64::MAX,
            i64::MIN <= self.y - o.y <= i64::MAX,
        ensures
            r.x == self.x - o.x,
            r.y == self.y - o.y,
    {
        V2 { x: self.x - o.x, y: self.y - o.y }
    }

    /// Squared Euclidean length.
    pub fn length_sq(self) -> (r: i64)
        requires
            in_box(self, 2_000_000_000),
        ensures
            r == norm_sq(self),
            0 <= r <= 8_000_000_000_000_000_000,
    {
        proof {
            lemma_square_bound(self.x as int, 2_000_000_000);
            lemma_square_bound(self.y as int, 2_000_000_000);
        }
        self.x * self.x + self.y * self.y
    }

    /// Squared distance between two points.
    pub fn dist_sq(self, o: V2) -> (r: i64)
        requires
            in_box(self, 1_000_000_000),
            in_box(o, 1_000_000_000),
        ensures
            r == dist_sq(self, o),
            0 <= r,
    {
        self.sub(o).length_sq()
    }
}

/// `|c| <= b` gives `c * c <= b * b`.
proof fn lemma_square_bound(c: int, b: int)
    by (nonlinear_arith)
    requires
        -b <= c <= b,
    ensures
        0 <= c * c <= b * b,
{
}

/// The least `r` with `r * r >= n`, by binary search.
pub fn isqrt_ceil(n: i64) -> (r: i64)
    requires
        0 <= n <= 8_000_000_000_000_000_000,
    ensures
        is_sqrt_ceil(n as int, r as int),
        r == sqrt_ceil(n as int),
        0 <= r <= 3_000_000_000,
{
    let mut lo: i64 = 0;
    let mut hi: i64 = 3_000_000_000;
    proof {
        assert(3_000_000_000i64 * 3_000_000_000i64 >= n);
    }
    while lo < hi
        invariant
            0 <= lo <= hi <= 3_000_000_000,
            hi * hi >= n,
            lo > 0 ==> (lo - 1) * (lo - 1) < n,
        decreases hi - lo,
    {
        let mid: i64 = lo + (hi - lo) / 2;
        proof {
            lemma_square_bound(mid as int, 3_000_000_000);
        }
        if mid * mid >= n {
            hi = mid;
        } else {
            lo = mid + 1;
        }
    }
    proof {
        lemma_sqrt_ceil_is(n as int, lo as int);
    }
    lo
}

/// `scaled` keeps the magnitude within `t` when `|c| <= l`.
proof fn lemma_scaled_component_bound(c: int, t: int, l: int)
    requires
        l >= 1,
        t >= 0,
        -l <= c <= l,
    ensures
        -t <= scaled(c, t, l) <= t,
{
    let m = if c >= 0 {
        c
    } else {
        -c
    };
    assert(0 <= m * t <= l * t) by (nonlinear_arith)
        requires
            0 <= m <= l,
            0 <= t,
    ;
    vstd::arithmetic::div_mod::lemma_div_is_ordered(m * t, l * t, l);
    vstd::arithmetic::div_mod::lemma_div_multiples_vanish(t, l);
    vstd::arithmetic::div_mod::lemma_div_pos_is_pos(m * t, l);
    assert(0 <= (m * t) / l <= t);
}

/// The square of `scaled(c, t, l)`, scaled back up by `l * l`, is at most
/// `c * c * t * t`.
proof fn lemma_scaled_square(c: int, t: int, l: int)
    requires
        l >= 1,
        t >= 0,
    ensures
        scaled(c, t, l) * scaled(c, t, l) * (l * l) <= (c * c) * (t * t),
{
    let m = if c >= 0 {
        c
    } else {
        -c
    };
    let q = (m * t) / l;
    assert(m * t >= 0) by (nonlinear_arith)
        requires
            m >= 0,
            t >= 0,
    ;
    vstd::arithmetic::div_mod::lemma_fundamental_div_mod(m * t, l);
    vstd::arithmetic::div_mod::lemma_mod_division_less_than_divisor(m * t, l);
    vstd::arithmetic::div_mod::lemma_div_pos_is_pos(m * t, l);
    assert(q * l <= m * t);
    assert(q * q * (l * l) <= (m * m) * (t * t)) by (nonlinear_arith)
        requires
            0 <= q,
            0 <= l,
            0 <= m * t,
            q * l <= m * t,
    ;
    let s = scaled(c, t, l);
    assert(s == q || s == -q);
    assert(s * s == q * q) by (nonlinear_arith)
        requires
            s == q || s == -q,
    ;
    assert((m * m) * (t * t) == (c * c) * (t * t)) by (nonlinear_arith)
        requires
            m == c || m == -c,
    ;
}

/// A vector rescaled to length at most `t` has squared length at most `t * t`.
proof fn lemma_scaled_caps(cx: int, cy: int, t: int, l: int)
    requires
        l >= 1,
        t >= 0,
        cx * cx + cy * cy <= l * l,
    ensures
        scaled(cx, t, l) * scaled(cx, t, l) + scaled(cy, t, l) * scaled(cy, t, l) <= t * t,
{
    let qx = scaled(cx, t, l);
    let qy = scaled(cy, t, l);
    lemma_scaled_square(cx, t, l);
    lemma_scaled_square(cy, t, l);
    assert((qx * qx + qy * qy) * (l * l) <= (cx * cx + cy * cy) * (t * t)) by (nonlinear_arith)
        requires
            qx * qx * (l * l) <= (cx * cx) * (t * t),
            qy * qy * (l * l) <= (cy * cy) * (t * t),
    ;
    assert((cx * cx + cy * cy) * (t * t) <= (l * l) * (t * t)) by (nonlinear_arith)
        requires
            cx * cx + cy * cy <= l * l,
            t * t >= 0,
    ;
    assert(qx * qx + qy * qy <= t * t) by (nonlinear_arith)
        requires
            (qx * qx + qy * qy) * (l * l) <= (l * l) * (t * t),
            l >= 1,
    ;
}

/// `c` clamped to `[-b, b]`.
pub open spec fn clamp1(c: int, b: int) -> int {
    if c > b {
        b
    } else if c < -b {
        -b
    } else {
        c
    }
}

/// `c / d`, rounding the magnitude down (toward zero).
pub open spec fn div_trunc(c: int, d: int) -> int {
    if c >= 0 {
        c / d
    } else {
        -((-c) / d)
    }
}

/// A truncating division never grows the magnitude.
pub proof fn lemma_div_trunc_bound(c: int, d: int)
    requires
        d >= 1,
    ensures
        if c >= 0 {
            0 <= div_trunc(c, d) <= c
        } else {
            c <= div_trunc(c, d) <= 0
        },
{
    let m = if c >= 0 {
        c
    } else {
        -c
    };
    vstd::arithmetic::div_mod::lemma_div_pos_is_pos(m, d);
    vstd::arithmetic::div_mod::lemma_div_is_ordered_by_denominator(m, 1, d);
    vstd::arithmetic::div_mod::lemma_div_by_self(1);
    assert(m / 1 == m) by (nonlinear_arith);
}

/// One component divided by `d`, rounding the magnitude down.
pub fn div_comp(c: i64, d: i64) -> (r: i64)
    requires
        1 <= d,
        c > i64::MIN,
    ensures
        r == div_trunc(c as int, d as int),
        if c >= 0 {
            0 <= r <= c
        } else {
            c <= r <= 0
        },
{
    proof {
        lemma_div_trunc_bound(c as int, d as int);
    }
    if c >= 0 {
        c / d
    } else {
        -((-c) / d)
    }
}

impl V2 {
    /// Both components clamped to `[-b, b]`.
    pub fn clamp_box(self, b: i64) -> (r: V2)
        requires
            0 <= b,
        ensures
            r.x == clamp1(self.x as int, b as int),
            r.y == clamp1(self.y as int, b as int),
            in_box(r, b as int),
    {
        let x = if self.x > b {
            b
        } else if self.x < -b {
            -b
        } else {
            self.x
        };
        let y = if self.y > b {
            b
        } else if self.y < -b {
            -b
        } else {
            self.y
        };
        V2 { x, y }
    }

    /// Both components divided by `d`, rounding the magnitudes down.
    pub fn div_by(self, d: i64) -> (r: V2)
        requires
            1 <= d,
            self.x > i64::MIN,
            self.y > i64::MIN,
        ensures
            r.x == div_trunc(self.x as int, d as int),
            r.y == div_trunc(self.y as int, d as int),
    {
        V2 { x: div_comp(self.x, d), y: div_comp(self.y, d) }
    }
}

/// One rescaled component: `c * t / l`, rounding the magnitude down.
fn scale_coord(c: i64, t: i64, len: i64) -> (r: i64)
    requires
        1 <= len <= 3_000_000_000,
        0 <= t <= 2_000_000,
        -2_000_000_000 <= c <= 2_000_000_000,
    ensures
        r == scaled(c as int, t as int, len as int),
{
    let m: i64 = if c < 0 {
        -c
    } else {
        c
    };
    proof {
        assert(0 <= m * t <= 4_000_000_000_000_000) by (nonlinear_arith)
            requires
                0 <= m <= 2_000_000_000,
                0 <= t <= 2_000_000,
        ;
        vstd::arithmetic::div_mod::lemma_div_pos_is_pos(m as int * t as int, len as int);
    }
    let q: i64 = (m * t) / len;
    if c < 0 {
        -q
    } else {
        q
    }
}

/// The difference `a - b`, as a vector (defined where the differences fit).
pub open spec fn v2_sub(a: V2, b: V2) -> V2 {
    V2 { x: (a.x - b.x) as i64, y: (a.y - b.y) as i64 }
}

/// What `scale_to_len` returns: the zero vector stays zero; any other
/// vector keeps its direction and takes length `t`, magnitudes rounded down.
pub open spec fn spec_scale_to_len(v: V2, t: int) -> V2 {
    if v == V2::spec_zero() {
        v
    } else {
        let l = sqrt_ceil(norm_sq(v));
        V2 { x: scaled(v.x as int, t, l) as i64, y: scaled(v.y as int, t, l) as i64 }
    }
}

impl V2 {
    /// The vector with `self`'s direction and length at most `t` (exactly
    /// `t`, up to rounding the magnitude down).  The zero vector stays zero.
    pub fn scale_to_len(self, t: i64) -> (r: V2)
        requires
            in_box(self, 2_000_000_000),
            0 <= t <= 2_000_000,
        ensures
            r == spec_scale_to_len(self, t as int),
            norm_sq(r) <= t * t,
            in_box(r, t as int),
            self == V2::spec_zero() ==> r == self,
            self != V2::spec_zero() ==> {
                let l = sqrt_ceil(norm_sq(self));
                r.x == scaled(self.x as int, t as int, l) && r.y == scaled(
                    self.y as int,
                    t as int,
                    l,
                )
            },
    {
        if self.x == 0 && self.y == 0 {
            proof {
                assert(self.x as int * self.x as int == 0 && self.y as int * self.y as int == 0)
                    by (nonlinear_arith)
                    requires
                        self.x == 0,
                        self.y == 0,
                ;
                assert(t * t >= 0) by (nonlinear_arith);
            }
            return self;
        }
        let n = self.length_sq();
        let l = isqrt_ceil(n);
        proof {
            let x = self.x as int;
            let y = self.y as int;
            let li = l as int;
            assert(x * x + y * y >= 1) by (nonlinear_arith)
                requires
                    x != 0 || y != 0,
            ;
            assert(li >= 1) by (nonlinear_arith)
                requires
                    li * li >= x * x + y * y,
                    x * x + y * y >= 1,
                    li >= 0,
            ;
            assert(x * x <= li * li && y * y <= li * li) by (nonlinear_arith)
                requires
                    li * li >= x * x + y * y,
                    x * x >= 0 || y * y >= 0,
            ;
            assert(-li <= x <= li && -li <= y <= li) by (nonlinear_arith)
                requires
                    x * x <= li * li,
                    y * y <= li * li,
                    li >= 1,
            ;
            lemma_scaled_caps(x, y, t as int, li);
            lemma_scaled_component_bound(x, t as int, li);
            lemma_scaled_component_bound(y, t as int, li);
        }
        let rx = scale_coord(self.x, t, l);
        let ry = scale_coord(self.y, t, l);
        V2 { x: rx, y: ry }
    }
}

} // verus!
