//! Encoding of a square-root price from a pair of token reserves.
//!
//! `encode_price_sqrt_x32(reserve_1, reserve_0)` returns
//! `round(sqrt(reserve_1 / reserve_0) * 2^32)`, the Q32.32 square-root price
//! of the reserve ratio, rounded to the nearest representable value (ties
//! away from zero).  It is computed exactly in integers: the rounded result
//! `r` is the unique value with
//! `(2r - 1)^2 * reserve_0 <= 2^66 * reserve_1 < (2r + 1)^2 * reserve_0`.
//! The helper serves test and setup code that builds prices from
//! human-readable reserve ratios; it is not part of the conversion path.

use vstd::prelude::*;

verus! {

/// 2^66 as a 128-bit constant: the scale that turns the squared rounding
/// condition `(r - 1/2) <= 2^32 * sqrt(reserve_1 / reserve_0) < (r + 1/2)`
/// into integer arithmetic.
pub const RATIO_SCALE_X66: u128 = 0x4_0000_0000_0000_0000;

/// Floored integer square root of a 128-bit value, by bisection.
fn isqrt_u128(value: u128) -> (r: u128)
    ensures
        r * r <= value,
        value < (r + 1) * (r + 1),
        r < 0x1_0000_0000_0000_0000,
{
    let mut low: u128 = 0;
    let mut high: u128 = 0x1_0000_0000_0000_0000;
    proof {
        assert((high as int) * (high as int) > u128::MAX) by (nonlinear_arith)
            requires
                high == 0x1_0000_0000_0000_0000u128,
        ;
    }
    while high - low > 1
        invariant
            low < high,
            high <= 0x1_0000_0000_0000_0000,
            (low as int) * (low as int) <= value,
            value < (high as int) * (high as int),
        decreases high - low,
    {
        let mid: u128 = low + (high - low) / 2;
        proof {
            assert((mid as int) * (mid as int) <= u128::MAX) by (nonlinear_arith)
                requires
                    mid < 0x1_0000_0000_0000_0000u128,
            ;
        }
        if mid * mid <= value {
            low = mid;
        } else {
            high = mid;
        }
    }
    low
}

/// Encodes the reserve ratio `reserve_1 / reserve_0` as a Q32.32 square-root
/// price, rounded to the nearest representable value with ties away from
/// zero.  The bound on `reserve_1` keeps the exact rounding comparison
/// within 128 bits; a zero `reserve_0` would divide by zero.
pub fn encode_price_sqrt_x32(reserve_1: u64, reserve_0: u64) -> (r: u64)
    requires
        reserve_0 > 0,
        reserve_1 < 0x4000_0000_0000_0000,
    ensures
        reserve_1 == 0 ==> r == 0,
        reserve_1 > 0 ==> r >= 1,
        reserve_1 > 0 ==> (2 * r - 1) * (2 * r - 1) * reserve_0 <= reserve_1 * (
        RATIO_SCALE_X66 as int),
        reserve_1 > 0 ==> reserve_1 * (RATIO_SCALE_X66 as int) < (2 * r + 1) * (2 * r + 1)
            * reserve_0,
{
    let scaled: u128 = (reserve_1 as u128) * RATIO_SCALE_X66;
    let quotient: u128 = scaled / (reserve_0 as u128);
    let root = isqrt_u128(quotient);
    let rounded: u128 = (root + 1) / 2;
    proof {
        let t = scaled as int;
        let r0 = reserve_0 as int;
        let q = quotient as int;
        let k = root as int;
        let n = rounded as int;
        vstd::arithmetic::div_mod::lemma_fundamental_div_mod(t, r0);
        vstd::arithmetic::div_mod::lemma_mod_division_less_than_divisor(t, r0);
        // q * r0 <= t < (q + 1) * r0
        assert(q * r0 <= t < (q + 1) * r0) by (nonlinear_arith)
            requires
                r0 > 0,
                t == r0 * q + t % r0,
                0 <= t % r0 < r0,
        ;
        vstd::arithmetic::div_mod::lemma_fundamental_div_mod(k + 1, 2);
        vstd::arithmetic::div_mod::lemma_mod_division_less_than_divisor(k + 1, 2);
        // 2n - 1 <= k <= 2n
        assert(2 * n - 1 <= k && k <= 2 * n);
        if reserve_1 > 0 {
            // t >= 2^66 > 4 * r0, so q >= 4 and hence k >= 2 and n >= 1
            assert(4 * r0 < t);
            assert(q >= 4) by (nonlinear_arith)
                requires
                    r0 > 0,
                    4 * r0 < t,
                    q * r0 <= t < (q + 1) * r0,
            ;
            assert(k >= 2) by (nonlinear_arith)
                requires
                    q >= 4,
                    q < (k + 1) * (k + 1),
                    k >= 0,
            ;
            assert(n >= 1);
            // lower bound: (2n - 1)^2 <= k^2 <= q, and q * r0 <= t
            assert((2 * n - 1) * (2 * n - 1) * r0 <= t) by (nonlinear_arith)
                requires
                    0 <= 2 * n - 1,
                    2 * n - 1 <= k,
                    k * k <= q,
                    q * r0 <= t,
                    r0 > 0,
            ;
            // upper bound: t < (q + 1) * r0 <= (k + 1)^2 * r0 <= (2n + 1)^2 * r0
            assert(t < (2 * n + 1) * (2 * n + 1) * r0) by (nonlinear_arith)
                requires
                    t < (q + 1) * r0,
                    q < (k + 1) * (k + 1),
                    k + 1 <= 2 * n + 1,
                    0 <= k,
                    r0 > 0,
            ;
        } else {
            assert(t == 0);
            assert(q == 0) by (nonlinear_arith)
                requires
                    q >= 0,
                    r0 > 0,
                    q * r0 <= 0,
            ;
            assert(k == 0) by (nonlinear_arith)
                requires
                    k >= 0,
                    k * k <= 0,
            ;
            assert(n == 0);
        }
        // the result fits in 64 bits: n <= (k + 1) / 2 and k <= 2^64
        assert(rounded <= 0x8000_0000_0000_0000u128);
    }
    rounded as u64
}

} // verus!
