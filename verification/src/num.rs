//! Saturating fixed-point scalar arithmetic and integer square roots.
//!
//! Every coordinate, velocity component and score in the game is an `i64`
//! held inside the saturation range `[-LIM, LIM]`. Additions and scalings
//! clamp at the bounds, so no arithmetic in the game can overflow; within
//! the range that any actual play session reaches, saturation never fires
//! and the operations coincide with exact integer arithmetic.

use vstd::prelude::*;

verus! {

/// Number of milli-units per screen unit: all lengths in the game are
/// integers measured in thousandths of a unit.
pub const SCALE: i64 = 1000;

/// Saturation bound for coordinates, velocity components and the score.
pub const LIM: i64 = 1_000_000_000_000_000;

/// A value clamped into the saturation range.
pub open spec fn sat(v: int) -> int {
    if v < -(LIM as int) {
        -(LIM as int)
    } else if v > LIM as int {
        LIM as int
    } else {
        v
    }
}

/// Narrows a wide intermediate result into the saturation range.
pub fn sat_narrow(v: i128) -> (r: i64)
    ensures
        r as int == sat(v as int),
{
    if v < -(LIM as i128) {
        -LIM
    } else if v > LIM as i128 {
        LIM
    } else {
        v as i64
    }
}

/// Saturating addition of two scalars.
pub fn sat_add(a: i64, b: i64) -> (r: i64)
    ensures
        r as int == sat(a + b),
{
    sat_narrow(a as i128 + b as i128)
}

/// Division truncated toward zero, the rounding that the game's scalings use.
pub open spec fn tdiv(a: int, b: int) -> int
    recommends
        b > 0,
{
    if a >= 0 {
        a / b
    } else {
        -((-a) / b)
    }
}

/// Division of an in-range scalar truncated toward zero.
pub fn tdiv_i64(a: i64, d: i64) -> (r: i64)
    requires
        d > 0,
        -(LIM as int) <= a as int <= LIM as int,
    ensures
        r as int == tdiv(a as int, d as int),
        -(LIM as int) <= r as int <= LIM as int,
{
    if a >= 0 {
        let q: u64 = (a as u64) / (d as u64);
        proof {
            vstd::arithmetic::div_mod::lemma_div_nonincreasing(a as int, d as int);
            vstd::arithmetic::div_mod::lemma_div_pos_is_pos(a as int, d as int);
        }
        q as i64
    } else {
        let q: u64 = ((-a) as u64) / (d as u64);
        proof {
            vstd::arithmetic::div_mod::lemma_div_nonincreasing(-(a as int), d as int);
            vstd::arithmetic::div_mod::lemma_div_pos_is_pos(-(a as int), d as int);
        }
        -(q as i64)
    }
}

/// `r` is the integer square root of `n` rounded down.
pub open spec fn is_floor_sqrt(n: int, r: int) -> bool {
    0 <= r && r * r <= n && n < (r + 1) * (r + 1)
}

/// The integer square root of `n`, rounded down.
pub open spec fn floor_sqrt(n: int) -> int
    recommends
        n >= 0,
{
    choose|r: int| #[trigger] is_floor_sqrt(n, r)
}

/// The integer square root of `n`, rounded up.
pub open spec fn ceil_sqrt(n: int) -> int
    recommends
        n >= 0,
{
    if floor_sqrt(n) * floor_sqrt(n) == n {
        floor_sqrt(n)
    } else {
        floor_sqrt(n) + 1
    }
}

/// Every nonnegative integer has a floor square root.
pub proof fn lemma_floor_sqrt_exists(n: int)
    requires
        n >= 0,
    ensures
        is_floor_sqrt(n, floor_sqrt(n)),
    decreases n,
{
    if n == 0 {
        assert(is_floor_sqrt(0, 0));
    } else {
        lemma_floor_sqrt_exists(n - 1);
        let r = choose|r: int| #[trigger] is_floor_sqrt(n - 1, r);
        if (r + 1) * (r + 1) <= n {
            assert(n <= (r + 1) * (r + 1)) by {
                assert(n - 1 < (r + 1) * (r + 1));
            }
            assert(is_floor_sqrt(n, r + 1)) by {
                assert((r + 2) * (r + 2) > (r + 1) * (r + 1)) by (nonlinear_arith)
                    requires r >= 0;
            }
        } else {
            assert(is_floor_sqrt(n, r));
        }
    }
}

/// The floor square root is unique.
pub proof fn lemma_floor_sqrt_unique(n: int, r1: int, r2: int)
    requires
        is_floor_sqrt(n, r1),
        is_floor_sqrt(n, r2),
    ensures
        r1 == r2,
{
    if r1 < r2 {
        assert((r1 + 1) * (r1 + 1) <= r2 * r2) by (nonlinear_arith)
            requires 0 <= r1, r1 < r2;
    }
    if r2 < r1 {
        assert((r2 + 1) * (r2 + 1) <= r1 * r1) by (nonlinear_arith)
            requires 0 <= r2, r2 < r1;
    }
}

/// Integer square root, rounded down, by binary search.
pub fn isqrt(n: u128) -> (r: u64)
    requires
        n < 0x4000_0000_0000_0000_0000_0000_0000_0000u128,
    ensures
        is_floor_sqrt(n as int, r as int),
        r as int == floor_sqrt(n as int),
{
    let mut lo: u128 = 0;
    let mut hi: u128 = 0x8000_0000_0000_0000u128;
    assert((hi as int) * (hi as int) == 0x4000_0000_0000_0000_0000_0000_0000_0000);
    while lo + 1 < hi
        invariant
            lo < hi,
            hi <= 0x8000_0000_0000_0000u128,
            (lo as int) * (lo as int) <= n as int,
            (n as int) < (hi as int) * (hi as int),
        decreases hi - lo,
    {
        let mid = lo + (hi - lo) / 2;
        assert(lo < mid && mid < hi);
        assert((mid as int) * (mid as int) < 0x4000_0000_0000_0000_0000_0000_0000_0000) by (nonlinear_arith)
            requires mid < 0x8000_0000_0000_0000u128;
        if mid * mid <= n {
            lo = mid;
        } else {
            hi = mid;
        }
    }
    assert(hi == lo + 1);
    assert(is_floor_sqrt(n as int, lo as int));
    proof {
        let w = choose|r: int| #[trigger] is_floor_sqrt(n as int, r);
        assert(is_floor_sqrt(n as int, w));
        lemma_floor_sqrt_unique(n as int, lo as int, w);
    }
    lo as u64
}

/// Integer square root, rounded up.
pub fn isqrt_ceil(n: u128) -> (r: u64)
    requires
        n < 0x4000_0000_0000_0000_0000_0000_0000_0000u128,
    ensures
        r as int == ceil_sqrt(n as int),
        n as int <= (r as int) * (r as int),
        n > 0 ==> r >= 1,
{
    let f = isqrt(n);
    proof {
        assert(f < 0x8000_0000_0000_0000u64) by (nonlinear_arith)
            requires
                (f as int) * (f as int) <= n as int,
                (n as int) < 0x4000_0000_0000_0000_0000_0000_0000_0000;
    }
    if f as u128 * f as u128 == n {
        f
    } else {
        f + 1
    }
}

} // verus!
