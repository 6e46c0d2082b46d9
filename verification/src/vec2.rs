//! Planar vectors in fixed-point milli-units.
//!
//! `Vec2i` carries positions, velocities and headings. The one nontrivial
//! operation is `norm_to`, which rescales a nonzero vector to a requested
//! magnitude using the rounded-up integer square root of its squared length;
//! rounding the root up and truncating the component divisions toward zero
//! guarantees that the result never exceeds the requested magnitude
//! (`lemma_norm_to_bound`).

use vstd::prelude::*;
use vstd::arithmetic::div_mod::lemma_fundamental_div_mod;
use crate::num::LIM;
use crate::num::ceil_sqrt;
use crate::num::is_floor_sqrt;
use crate::num::isqrt_ceil;
use crate::num::lemma_floor_sqrt_exists;
use crate::num::sat;
use crate::num::sat_add;
use crate::num::sat_narrow;
use crate::num::tdiv;

verus! {

/// A point or displacement on the playfield, in milli-units.
#[derive(Clone, Copy, Debug, PartialEq, Eq, Structural)]
pub struct Vec2i {
    pub x: i64,
    pub y: i64,
}

/// Both components lie in the saturation range.
pub open spec fn in_lim(v: Vec2i) -> bool {
    -(LIM as int) <= v.x as int <= LIM as int && -(LIM as int) <= v.y as int <= LIM as int
}

/// Squared Euclidean length.
pub open spec fn len_sq(v: Vec2i) -> int {
    (v.x as int) * (v.x as int) + (v.y as int) * (v.y as int)
}

/// Squared Euclidean distance between two points.
pub open spec fn dist_sq(a: Vec2i, b: Vec2i) -> int {
    (a.x - b.x) * (a.x - b.x) + (a.y - b.y) * (a.y - b.y)
}

/// Squared distance between two in-range points, exactly.
pub fn dist_sq_exec(a: Vec2i, b: Vec2i) -> (r: i128)
    requires
        in_lim(a),
        in_lim(b),
    ensures
        r as int == dist_sq(a, b),
        r >= 0,
{
    let dx: i128 = a.x as i128 - b.x as i128;
    let dy: i128 = a.y as i128 - b.y as i128;
    proof {
        assert(0 <= dx * dx <= 4 * (LIM as int) * (LIM as int)
            && 0 <= dy * dy <= 4 * (LIM as int) * (LIM as int)) by (nonlinear_arith)
            requires
                -(2 * LIM as int) <= dx as int <= 2 * LIM as int,
                -(2 * LIM as int) <= dy as int <= 2 * LIM as int;
    }
    dx * dx + dy * dy
}

/// Componentwise saturating sum.
pub open spec fn spec_vadd(a: Vec2i, b: Vec2i) -> Vec2i {
    Vec2i { x: sat(a.x + b.x) as i64, y: sat(a.y + b.y) as i64 }
}

/// Componentwise saturating difference.
pub open spec fn spec_vsub(a: Vec2i, b: Vec2i) -> Vec2i {
    Vec2i { x: sat(a.x - b.x) as i64, y: sat(a.y - b.y) as i64 }
}

/// Componentwise scaling by `m / d`, truncated toward zero and saturated.
pub open spec fn spec_vscale(v: Vec2i, m: int, d: int) -> Vec2i
    recommends
        d > 0,
{
    Vec2i { x: sat(tdiv(v.x * m, d)) as i64, y: sat(tdiv(v.y * m, d)) as i64 }
}

/// `v` rescaled to magnitude at most `t`: each component is `v * t`
/// divided by the rounded-up integer length of `v`. The zero vector stays
/// zero.
pub open spec fn spec_norm_to(v: Vec2i, t: int) -> Vec2i
    recommends
        0 <= t,
{
    if v.x == 0 && v.y == 0 {
        v
    } else {
        let l = ceil_sqrt(len_sq(v));
        Vec2i { x: tdiv(v.x * t, l) as i64, y: tdiv(v.y * t, l) as i64 }
    }
}

impl Vec2i {
    /// Builds a vector from its components.
    pub fn new(x: i64, y: i64) -> (r: Vec2i)
        ensures
            r == (Vec2i { x, y }),
    {
        Vec2i { x, y }
    }

    /// Saturating vector sum.
    pub fn add_sat(self, o: Vec2i) -> (r: Vec2i)
        ensures
            r == spec_vadd(self, o),
    {
        Vec2i { x: sat_add(self.x, o.x), y: sat_add(self.y, o.y) }
    }

    /// Saturating vector difference.
    pub fn sub_sat(self, o: Vec2i) -> (r: Vec2i)
        ensures
            r == spec_vsub(self, o),
    {
        Vec2i {
            x: sat_narrow(self.x as i128 - o.x as i128),
            y: sat_narrow(self.y as i128 - o.y as i128),
        }
    }

    /// Scales by the ratio `m / d`, truncating toward zero.
    pub fn scale(self, m: i64, d: i64) -> (r: Vec2i)
        requires
            d > 0,
            -1_000_000 <= m as int <= 1_000_000,
        ensures
            r == spec_vscale(self, m as int, d as int),
    {
        Vec2i { x: scale_component(self.x, m, d), y: scale_component(self.y, m, d) }
    }

    /// Squared length, exactly.
    pub fn len_sq(self) -> (r: i128)
        requires
            in_lim(self),
        ensures
            r as int == len_sq(self),
    {
        proof {
            assert((self.x as int) * (self.x as int) <= (LIM as int) * (LIM as int)
                && (self.y as int) * (self.y as int) <= (LIM as int) * (LIM as int)
                && 0 <= (self.x as int) * (self.x as int)
                && 0 <= (self.y as int) * (self.y as int)) by (nonlinear_arith)
                requires
                    -(LIM as int) <= self.x as int <= LIM as int,
                    -(LIM as int) <= self.y as int <= LIM as int;
        }
        self.x as i128 * self.x as i128 + self.y as i128 * self.y as i128
    }

    /// The perpendicular vector, a quarter turn counter-clockwise in screen
    /// coordinates: `(x, y)` becomes `(-y, x)`.
    pub fn perp(self) -> (r: Vec2i)
        requires
            in_lim(self),
        ensures
            r.x as int == -(self.y as int),
            r.y == self.x,
    {
        Vec2i { x: -self.y, y: self.x }
    }

    /// Rescales to magnitude at most `t`, leaving the zero vector zero.
    pub fn norm_to(self, t: i64) -> (r: Vec2i)
        requires
            in_lim(self),
            0 <= t <= 1_000_000,
        ensures
            r == spec_norm_to(self, t as int),
    {
        if self.x == 0 && self.y == 0 {
            return self;
        }
        proof {
            lemma_len_sq_bounds(self);
        }
        let n: i128 = self.len_sq();
        proof {
            lemma_floor_sqrt_exists(n as int);
            assert(n as int >= 1) by (nonlinear_arith)
                requires
                    n as int == (self.x as int) * (self.x as int) + (self.y as int) * (self.y as int),
                    !(self.x == 0 && self.y == 0);
        }
        let l: u64 = isqrt_ceil(n as u128);
        let rx: i64 = norm_component(self.x, t, l, Ghost(n as int));
        let ry: i64 = norm_component(self.y, t, l, Ghost(n as int));
        Vec2i { x: rx, y: ry }
    }
}

/// One component of `scale`: `c * m / d` truncated toward zero, saturated.
fn scale_component(c: i64, m: i64, d: i64) -> (r: i64)
    requires
        d > 0,
        -1_000_000 <= m as int <= 1_000_000,
    ensures
        r as int == sat(tdiv(c * m, d as int)),
{
    proof {
        assert(-(0x8000_0000_0000_0000i128 * 1_000_000) <= (c as int) * (m as int)
            <= 0x8000_0000_0000_0000i128 * 1_000_000) by (nonlinear_arith)
            requires
                -0x8000_0000_0000_0000i128 <= c as int <= 0x7fff_ffff_ffff_ffffi128,
                -1_000_000 <= m as int <= 1_000_000;
    }
    let p: i128 = c as i128 * m as i128;
    let q: i128 = if p >= 0 {
        (p as u128 / d as u128) as i128
    } else {
        -((((-p) as u128) / d as u128) as i128)
    };
    proof {
        if p >= 0 {
            assert(q as int == tdiv(p as int, d as int));
        } else {
            assert(q as int == tdiv(p as int, d as int));
        }
    }
    sat_narrow(q)
}

/// One component of `norm_to`: `c * t / l` truncated toward zero, where `l`
/// bounds `|c|` from above, so the result magnitude never exceeds `t`.
fn norm_component(c: i64, t: i64, l: u64, n: Ghost<int>) -> (r: i64)
    requires
        0 <= t <= 1_000_000,
        l >= 1,
        -(LIM as int) <= c as int <= LIM as int,
        (c as int) * (c as int) <= n@,
        n@ <= (l as int) * (l as int),
    ensures
        r as int == tdiv(c * t, l as int),
        -(t as int) <= r as int <= t as int,
{
    proof {
        lemma_abs_le_root(c as int, l as int, n@);
    }
    let ac: u64 = if c >= 0 { c as u64 } else { (-c) as u64 };
    proof {
        assert(0 <= (ac as int) * (t as int) <= (LIM as int) * 1_000_000) by (nonlinear_arith)
            requires
                0 <= ac as int <= LIM as int,
                0 <= t as int <= 1_000_000;
    }
    let a: u128 = ac as u128 * t as u128;
    let q: u128 = a / l as u128;
    proof {
        lemma_div_monotone_bound(ac as int, t as int, l as int);
        if c >= 0 {
            assert((c as int) * (t as int) == a as int);
            assert(q as int == tdiv(c * t, l as int));
        } else {
            assert((-(c as int)) * (t as int) == a as int);
            assert((c as int) * (t as int) == -(a as int)) by (nonlinear_arith)
                requires (-(c as int)) * (t as int) == a as int;
            assert(q as int == ((-(c * t)) as int) / (l as int));
            assert(q as int == -tdiv(c * t, l as int));
        }
    }
    if c >= 0 {
        q as i64
    } else {
        -(q as i64)
    }
}

/// The squared length of an in-range vector is nonnegative, dominates each
/// squared component, and fits well under the square-root domain bound.
pub proof fn lemma_len_sq_bounds(v: Vec2i)
    requires
        in_lim(v),
    ensures
        0 <= len_sq(v),
        (v.x as int) * (v.x as int) <= len_sq(v),
        (v.y as int) * (v.y as int) <= len_sq(v),
        len_sq(v) <= 2 * (LIM as int) * (LIM as int),
{
    assert(0 <= (v.x as int) * (v.x as int) <= (LIM as int) * (LIM as int)
        && 0 <= (v.y as int) * (v.y as int) <= (LIM as int) * (LIM as int)) by (nonlinear_arith)
        requires
            -(LIM as int) <= v.x as int <= LIM as int,
            -(LIM as int) <= v.y as int <= LIM as int;
}

/// `c*c <= l*l` for nonnegative `l` forces `|c| <= l`.
proof fn lemma_abs_le_root(c: int, l: int, n: int)
    requires
        c * c <= n,
        n <= l * l,
        l >= 0,
    ensures
        -l <= c <= l,
{
    assert(-l <= c <= l) by (nonlinear_arith)
        requires
            c * c <= l * l,
            l >= 0;
}

/// `(|c| * t) / l <= t` whenever `|c| <= l` and `l >= 1`.
proof fn lemma_div_monotone_bound(ac: int, t: int, l: int)
    requires
        0 <= ac <= l,
        0 <= t,
        l >= 1,
    ensures
        0 <= (ac * t) / l <= t,
{
    assert(ac * t <= l * t && 0 <= ac * t) by (nonlinear_arith)
        requires 0 <= ac <= l, 0 <= t;
    assert((ac * t) / l <= (l * t) / l) by {
        vstd::arithmetic::div_mod::lemma_div_is_ordered(ac * t, l * t, l);
    }
    assert((l * t) / l == t) by {
        vstd::arithmetic::div_mod::lemma_div_multiples_vanish(t, l);
    }
    assert(0 <= (ac * t) / l) by {
        vstd::arithmetic::div_mod::lemma_div_pos_is_pos(ac * t, l);
    }
}

/// Rescaling to magnitude `t` indeed yields a vector of squared length at
/// most `t * t`, with each component in `[-t, t]`.
pub proof fn lemma_norm_to_bound(v: Vec2i, t: int)
    requires
        in_lim(v),
        0 <= t <= 1_000_000,
    ensures
        len_sq(spec_norm_to(v, t)) <= t * t,
        -t <= spec_norm_to(v, t).x as int <= t,
        -t <= spec_norm_to(v, t).y as int <= t,
{
    if v.x == 0 && v.y == 0 {
        assert(spec_norm_to(v, t) == v);
        assert(len_sq(v) == 0);
        assert(0 <= t * t) by (nonlinear_arith);
    } else {
        let n = len_sq(v);
        lemma_len_sq_bounds(v);
        lemma_floor_sqrt_exists(n);
        let l = ceil_sqrt(n);
        assert(n >= 1) by (nonlinear_arith)
            requires
                n == (v.x as int) * (v.x as int) + (v.y as int) * (v.y as int),
                !(v.x == 0 && v.y == 0);
        assert(l >= 1 && n <= l * l) by {
            lemma_ceil_sqrt_covers(n);
        }
        let a = tdiv(v.x as int * t, l);
        let b = tdiv(v.y as int * t, l);
        lemma_tdiv_sq_bound(v.x as int, t, l, n);
        lemma_tdiv_sq_bound(v.y as int, t, l, n);
        assert(a * a * (l * l) <= ((v.x as int) * (v.x as int)) * (t * t));
        assert(b * b * (l * l) <= ((v.y as int) * (v.y as int)) * (t * t));
        assert((a * a + b * b) * (l * l) <= n * (t * t)) by (nonlinear_arith)
            requires
                a * a * (l * l) <= ((v.x as int) * (v.x as int)) * (t * t),
                b * b * (l * l) <= ((v.y as int) * (v.y as int)) * (t * t),
                n == (v.x as int) * (v.x as int) + (v.y as int) * (v.y as int);
        assert(n * (t * t) <= (l * l) * (t * t)) by (nonlinear_arith)
            requires n <= l * l, 0 <= t;
        assert(a * a + b * b <= t * t) by (nonlinear_arith)
            requires
                (a * a + b * b) * (l * l) <= (l * l) * (t * t),
                l >= 1;
        assert(0 <= a * a && 0 <= b * b) by (nonlinear_arith);
        assert(a * a <= t * t && b * b <= t * t) by (nonlinear_arith)
            requires
                a * a + b * b <= t * t,
                0 <= a * a,
                0 <= b * b;
        lemma_abs_le_root(a, t, t * t);
        lemma_abs_le_root(b, t, t * t);
        assert(spec_norm_to(v, t).x as int == a && spec_norm_to(v, t).y as int == b);
    }
}

/// The rounded-up square root covers its argument: `n <= ceil_sqrt(n)^2`.
pub proof fn lemma_ceil_sqrt_covers(n: int)
    requires
        n >= 1,
    ensures
        ceil_sqrt(n) >= 1,
        n <= ceil_sqrt(n) * ceil_sqrt(n),
{
    lemma_floor_sqrt_exists(n);
    let f = crate::num::floor_sqrt(n);
    assert(is_floor_sqrt(n, f));
    if f * f == n {
        assert(f >= 1) by (nonlinear_arith)
            requires f * f == n, n >= 1, f >= 0;
    } else {
        assert(n <= (f + 1) * (f + 1));
    }
}

/// One truncated component of a normalization, squared and cleared of its
/// denominator: `tdiv(c*t, l)^2 * l^2 <= c^2 * t^2`.
proof fn lemma_tdiv_sq_bound(c: int, t: int, l: int, n: int)
    requires
        0 <= t,
        l >= 1,
        c * c <= n,
        n <= l * l,
    ensures
        tdiv(c * t, l) * tdiv(c * t, l) * (l * l) <= (c * c) * (t * t),
{
    lemma_abs_le_root(c, l, n);
    let p = if c >= 0 { c * t } else { -(c * t) };
    assert(p >= 0) by (nonlinear_arith)
        requires 0 <= t, p == if c >= 0 { c * t } else { -(c * t) };
    let q = p / l;
    lemma_fundamental_div_mod(p, l);
    assert(q * l <= p) by {
        vstd::arithmetic::div_mod::lemma_mod_bound(p, l);
    }
    assert(q >= 0) by {
        vstd::arithmetic::div_mod::lemma_div_pos_is_pos(p, l);
    }
    assert(p * p == (c * c) * (t * t)) by (nonlinear_arith)
        requires p == if c >= 0 { c * t } else { -(c * t) };
    assert((q * l) * (q * l) <= p * p) by (nonlinear_arith)
        requires 0 <= q * l, q * l <= p;
    assert(q * q * (l * l) <= (c * c) * (t * t)) by (nonlinear_arith)
        requires
            (q * l) * (q * l) <= p * p,
            p * p == (c * c) * (t * t);
    assert(tdiv(c * t, l) == if c >= 0 { q } else { -q }) by {
        if c >= 0 {
            assert(c * t >= 0) by (nonlinear_arith)
                requires c >= 0, t >= 0;
        } else {
            assert(c * t <= 0) by (nonlinear_arith)
                requires c < 0, t >= 0;
            if c * t == 0 {
                assert(p == 0);
            }
        }
    }
    assert(tdiv(c * t, l) * tdiv(c * t, l) == q * q) by (nonlinear_arith)
        requires tdiv(c * t, l) == if c >= 0 { q } else { -q };
}


/// Rescaling preserves the sign of each component: the zero vector stays
/// zero, and truncation toward zero never crosses zero.
pub proof fn lemma_norm_to_sign(v: Vec2i, t: int)
    requires
        in_lim(v),
        0 <= t <= 1_000_000,
    ensures
        v.x >= 0 ==> spec_norm_to(v, t).x >= 0,
        v.x <= 0 ==> spec_norm_to(v, t).x <= 0,
        v.y >= 0 ==> spec_norm_to(v, t).y >= 0,
        v.y <= 0 ==> spec_norm_to(v, t).y <= 0,
{
    if v.x == 0 && v.y == 0 {
    } else {
        let n = len_sq(v);
        lemma_len_sq_bounds(v);
        assert(n >= 1) by (nonlinear_arith)
            requires
                n == (v.x as int) * (v.x as int) + (v.y as int) * (v.y as int),
                !(v.x == 0 && v.y == 0);
        lemma_floor_sqrt_exists(n);
        lemma_ceil_sqrt_covers(n);
        let l = ceil_sqrt(n);
        lemma_abs_le_root(v.x as int, l, n);
        lemma_abs_le_root(v.y as int, l, n);
        lemma_tdiv_sign(v.x as int, t, l);
        lemma_tdiv_sign(v.y as int, t, l);
    }
}

/// Truncating division toward zero keeps the sign of `c * t` for `t >= 0`,
/// and its magnitude stays within `t` when `l` bounds `|c|`.
proof fn lemma_tdiv_sign(c: int, t: int, l: int)
    requires
        0 <= t,
        l >= 1,
        -l <= c <= l,
    ensures
        c >= 0 ==> 0 <= tdiv(c * t, l) <= t,
        c <= 0 ==> -t <= tdiv(c * t, l) <= 0,
{
    if c >= 0 {
        assert(c * t >= 0) by (nonlinear_arith)
            requires c >= 0, t >= 0;
        lemma_div_monotone_bound(c, t, l);
    } else {
        assert(c * t <= 0 && -(c * t) == (-c) * t) by (nonlinear_arith)
            requires c <= 0, t >= 0;
        lemma_div_monotone_bound(-c, t, l);
        if c * t == 0 {
            assert(tdiv(c * t, l) == 0) by {
                vstd::arithmetic::div_mod::lemma_div_of0(l);
            }
        }
    }
}

/// Scaling a vector of squared length at most `d * d` by the ratio `m / d`
/// yields squared length at most `m * m`.
pub proof fn lemma_vscale_bound(v: Vec2i, m: int, d: int)
    requires
        len_sq(v) <= d * d,
        d >= 1,
        0 <= m <= 1_000_000,
    ensures
        len_sq(spec_vscale(v, m, d)) <= m * m,
        -m <= spec_vscale(v, m, d).x as int <= m,
        -m <= spec_vscale(v, m, d).y as int <= m,
{
    let a = tdiv(v.x as int * m, d);
    let b = tdiv(v.y as int * m, d);
    assert(0 <= (v.x as int) * (v.x as int) && 0 <= (v.y as int) * (v.y as int))
        by (nonlinear_arith);
    lemma_tdiv_sq_bound(v.x as int, m, d, d * d);
    lemma_tdiv_sq_bound(v.y as int, m, d, d * d);
    assert((a * a + b * b) * (d * d) <= ((v.x as int) * (v.x as int) + (v.y as int) * (v.y
        as int)) * (m * m)) by (nonlinear_arith)
        requires
            a * a * (d * d) <= ((v.x as int) * (v.x as int)) * (m * m),
            b * b * (d * d) <= ((v.y as int) * (v.y as int)) * (m * m);
    assert(((v.x as int) * (v.x as int) + (v.y as int) * (v.y as int)) * (m * m) <= (d * d) * (m
        * m)) by (nonlinear_arith)
        requires
            (v.x as int) * (v.x as int) + (v.y as int) * (v.y as int) <= d * d,
            0 <= m;
    assert(a * a + b * b <= m * m) by (nonlinear_arith)
        requires
            (a * a + b * b) * (d * d) <= (d * d) * (m * m),
            d >= 1;
    assert(0 <= a * a && 0 <= b * b) by (nonlinear_arith);
    assert(a * a <= m * m && b * b <= m * m) by (nonlinear_arith)
        requires
            a * a + b * b <= m * m,
            0 <= a * a,
            0 <= b * b;
    lemma_abs_le_root(a, m, m * m);
    lemma_abs_le_root(b, m, m * m);
    assert(spec_vscale(v, m, d).x as int == a && spec_vscale(v, m, d).y as int == b);
}

} // verus!
