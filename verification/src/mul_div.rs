//! The shared multiply-then-divide primitive: `floor(a * b / denominator)`
//! computed through a 128-bit intermediate so the product never truncates,
//! with an explicit check that the quotient fits back into 64 bits.

use vstd::prelude::*;

verus! {

/// Floored multiply-divide with a wide intermediate.
///
/// Returns `floor(a * b / denominator)` when the denominator is non-zero and
/// the quotient fits in a `u64`; returns `None` otherwise.  The 128-bit
/// intermediate product is exact, so the only failure modes are a zero
/// denominator and a quotient too wide for the result type.
pub fn mul_div_floor(a: u64, b: u64, denominator: u64) -> (r: Option<u64>)
    ensures
        r is Some <==> denominator != 0 && (a * b) / (denominator as int) <= u64::MAX,
        r is Some ==> r->Some_0 == (a * b) / (denominator as int),
{
    if denominator == 0 {
        return None;
    }
    proof {
        assert(a * b <= u64::MAX * u64::MAX) by (nonlinear_arith)
            requires
                a <= u64::MAX,
                b <= u64::MAX,
        ;
    }
    let wide: u128 = (a as u128) * (b as u128);
    let quotient: u128 = wide / (denominator as u128);
    if quotient <= u64::MAX as u128 {
        Some(quotient as u64)
    } else {
        None
    }
}

} // verus!
