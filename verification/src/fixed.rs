//! Fixed-point arithmetic for the detection engine.
//!
//! Every real-valued quantity (metric values, means, standard deviations,
//! z-scores, composite scores, thresholds) is carried as an [`Fx`]: a count
//! of millionths of a unit stored in an `i64`. The helpers here give the
//! two non-trivial operations the engine needs — division rounding toward
//! zero and the floor square root — exact integer contracts.

use vstd::prelude::*;

verus! {

/// Number of raw units per whole unit: an `Fx` counts millionths.
pub const FX_SCALE: i64 = 1_000_000;

/// Largest raw magnitude accepted for an engine input value
/// (one million whole units). Keeps every intermediate product of the
/// pipeline inside `i128`.
pub const FX_INPUT_LIMIT: i64 = 1_000_000_000_000;

/// Bound on the raw value of any standard deviation the engine computes
/// from inputs within [`FX_INPUT_LIMIT`].
pub const FX_STD_LIMIT: i64 = 2_000_000_000_000_000;

/// Bound on the raw magnitude of any z-score or composite score the
/// engine computes from inputs within [`FX_INPUT_LIMIT`].
pub const FX_Z_LIMIT: i64 = 2_000_000_000_000_000;

/// A standard deviation at or below this raw value (0.001 units) is
/// treated as degenerate: no z-score is derived from it.
pub const FX_STD_EPSILON: i64 = 1_000;

/// Largest number of rows one detection call accepts.
pub const MAX_ROWS: usize = 1_000_000;

/// A fixed-point number: `raw` counts millionths of a unit.
#[derive(Clone, Copy, Debug, PartialEq, Eq, Structural)]
pub struct Fx {
    pub raw: i64,
}

impl Fx {
    /// The fixed-point value representing the whole number `v`.
    pub fn from_units(v: i64) -> (r: Fx)
        requires
            -9_000_000_000_000 <= v <= 9_000_000_000_000,
        ensures
            r.raw == v * FX_SCALE,
    {
        Fx { raw: v * FX_SCALE }
    }

    /// The fixed-point value with the given raw count of millionths.
    pub fn from_raw(raw: i64) -> (r: Fx)
        ensures
            r.raw == raw,
    {
        Fx { raw }
    }
}

/// A value fit to enter the engine: raw magnitude within [`FX_INPUT_LIMIT`].
pub open spec fn fx_in_range(f: Fx) -> bool {
    -FX_INPUT_LIMIT <= f.raw <= FX_INPUT_LIMIT
}

/// Integer division rounding toward zero, the semantics every division
/// in the engine uses.
pub open spec fn div_to_zero(a: int, b: int) -> int
    recommends
        b > 0,
{
    if a >= 0 {
        a / b
    } else {
        -((-a) / b)
    }
}

/// `r` is the floor of the square root of `x`.
pub open spec fn is_sqrt_floor(x: int, r: int) -> bool {
    &&& 0 <= r
    &&& r * r <= x
    &&& x < (r + 1) * (r + 1)
}

/// The floor of the square root of a non-negative `x`.
pub open spec fn sqrt_floor(x: int) -> int
    recommends
        x >= 0,
{
    choose|r: int| #[trigger] is_sqrt_floor(x, r)
}

/// Every non-negative integer has a floor square root.
pub proof fn lemma_sqrt_floor_exists(x: int)
    requires
        x >= 0,
    ensures
        exists|r: int| #[trigger] is_sqrt_floor(x, r),
    decreases x,
{
    if x == 0 {
        assert(is_sqrt_floor(0, 0));
    } else {
        lemma_sqrt_floor_exists(x - 1);
        let p = choose|r: int| #[trigger] is_sqrt_floor(x - 1, r);
        if x < (p + 1) * (p + 1) {
            assert(is_sqrt_floor(x, p));
        } else {
            assert(x == (p + 1) * (p + 1));
            assert((p + 1) * (p + 1) < (p + 2) * (p + 2)) by (nonlinear_arith)
                requires p >= 0;
            assert(is_sqrt_floor(x, p + 1));
        }
    }
}

/// The floor square root is unique, so any witness pins `sqrt_floor`.
pub proof fn lemma_sqrt_floor_is(x: int, r: int)
    requires
        is_sqrt_floor(x, r),
    ensures
        sqrt_floor(x) == r,
{
    let r2 = choose|r2: int| #[trigger] is_sqrt_floor(x, r2);
    assert(is_sqrt_floor(x, r2));
    assert(r == r2) by (nonlinear_arith)
        requires
            0 <= r,
            r * r <= x,
            x < (r + 1) * (r + 1),
            0 <= r2,
            r2 * r2 <= x,
            x < (r2 + 1) * (r2 + 1),
    ;
}

/// A magnitude bound on the dividend gives the same bound, scaled down,
/// on a division toward zero.
pub proof fn lemma_div_to_zero_bound(a: int, b: int, c: int)
    requires
        b > 0,
        c >= 0,
        -(b * c) <= a <= b * c,
    ensures
        -c <= div_to_zero(a, b) <= c,
{
    if a >= 0 {
        vstd::arithmetic::div_mod::lemma_div_is_ordered(a, b * c, b);
        vstd::arithmetic::div_mod::lemma_div_multiples_vanish(c, b);
        vstd::arithmetic::div_mod::lemma_div_is_ordered(0, a, b);
    } else {
        vstd::arithmetic::div_mod::lemma_div_is_ordered(-a, b * c, b);
        vstd::arithmetic::div_mod::lemma_div_multiples_vanish(c, b);
        vstd::arithmetic::div_mod::lemma_div_is_ordered(0, -a, b);
    }
}

/// A division toward zero of a non-negative value is non-negative and no
/// larger than the dividend.
pub proof fn lemma_div_to_zero_nonneg(a: int, b: int)
    requires
        a >= 0,
        b > 0,
    ensures
        0 <= div_to_zero(a, b) <= a,
{
    vstd::arithmetic::div_mod::lemma_div_is_ordered(0, a, b);
    vstd::arithmetic::div_mod::lemma_div_of0(b);
    vstd::arithmetic::div_mod::lemma_div_nonincreasing(a, b);
}

/// Division toward zero, exactly as [`div_to_zero`] describes it.
pub fn div_i128(a: i128, b: i128) -> (q: i128)
    requires
        b > 0,
        a > i128::MIN,
    ensures
        q == div_to_zero(a as int, b as int),
{
    if a >= 0 {
        let q0: u128 = (a as u128) / (b as u128);
        q0 as i128
    } else {
        let m: i128 = -a;
        let q0: u128 = (m as u128) / (b as u128);
        proof {
            vstd::arithmetic::div_mod::lemma_div_is_ordered(0, m as int, b as int);
            vstd::arithmetic::div_mod::lemma_div_nonincreasing(m as int, b as int);
        }
        -(q0 as i128)
    }
}

/// The floor square root, exactly as [`sqrt_floor`] describes it.
pub fn sqrt_i128(x: i128) -> (r: i128)
    requires
        x >= 0,
    ensures
        r as int == sqrt_floor(x as int),
        is_sqrt_floor(x as int, r as int),
{
    let xu: u128 = x as u128;
    let mut lo: u128 = 0;
    let mut hi: u128 = 0x1_0000_0000_0000_0000;
    proof {
        assert((hi as int) * (hi as int) > xu as int) by (nonlinear_arith)
            requires hi == 0x1_0000_0000_0000_0000u128, xu <= u128::MAX;
    }
    while lo + 1 < hi
        invariant
            lo < hi <= 0x1_0000_0000_0000_0000u128,
            xu == x,
            (lo as int) * (lo as int) <= xu as int,
            (hi as int) * (hi as int) > xu as int,
        decreases hi - lo,
    {
        let mid: u128 = lo + (hi - lo) / 2;
        proof {
            assert((mid as int) * (mid as int) < (0x1_0000_0000_0000_0000 as int)
                * (0x1_0000_0000_0000_0000 as int)) by (nonlinear_arith)
                requires 0 <= mid < 0x1_0000_0000_0000_0000u128;
        }
        if mid * mid <= xu {
            lo = mid;
        } else {
            hi = mid;
        }
    }
    proof {
        assert(hi == lo + 1);
        lemma_sqrt_floor_is(x as int, lo as int);
        assert(lo < 0x1_0000_0000_0000_0000u128);
    }
    lo as i128
}

} // verus!
