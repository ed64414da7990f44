//! Conversions between liquidity and token amounts over a square-root price
//! range.
//!
//! A range is delimited by two Q32.32 square-root prices given in either
//! order; every operation first normalizes them so the smaller one is treated
//! as the lower boundary.  Conversions floor their results and surface an
//! error instead of wrapping or saturating whenever an intermediate product
//! or a final narrowing step leaves the target width.

use vstd::prelude::*;

use crate::fixed_point_x32::Q32;
use crate::mul_div::mul_div_floor;

verus! {

/// Why a conversion could not produce a result.
#[derive(Clone, Copy, Debug, PartialEq, Eq, Structural)]
pub enum LiquidityError {
    /// The two boundaries are equal: a zero-width range cannot be divided into.
    RangeDegenerate,
    /// An intermediate product or a final narrowing step left its target width.
    ArithmeticOverflow,
    /// A zero price stands where a divisor is required.
    InvalidInput,
}

/// Position of the current price relative to a normalized range.
#[derive(Clone, Copy, Debug, PartialEq, Eq, Structural)]
pub enum RangePosition {
    /// Current price at or below the lower boundary: only token_0 is active.
    BelowRange,
    /// Current price strictly inside the range: both tokens are active.
    WithinRange,
    /// Current price at or above the upper boundary: only token_1 is active.
    AboveRange,
}

/// The smaller of the two boundary prices.
pub open spec fn sqrt_lower(a: u64, b: u64) -> int {
    if a <= b {
        a as int
    } else {
        b as int
    }
}

/// The larger of the two boundary prices.
pub open spec fn sqrt_upper(a: u64, b: u64) -> int {
    if a <= b {
        b as int
    } else {
        a as int
    }
}

/// Where the current price stands relative to the normalized range `[l, h]`.
/// A price exactly on a boundary resolves to the single-sided position.
pub open spec fn range_position(price: int, l: int, h: int) -> RangePosition {
    if price <= l {
        RangePosition::BelowRange
    } else if price < h {
        RangePosition::WithinRange
    } else {
        RangePosition::AboveRange
    }
}

/// Fixed-point product of the two boundary prices scaled back to Q32.32:
/// `floor(l * h / 2^32)`.
pub open spec fn boundary_product_x32(l: int, h: int) -> int {
    (l * h) / (Q32 as int)
}

/// Liquidity obtainable from `amount_0` of token_0 alone over `[l, h]`:
/// `floor(amount_0 * floor(l * h / 2^32) / (h - l))`.
pub open spec fn liquidity_from_amount_0(l: int, h: int, amount_0: int) -> int {
    (amount_0 * boundary_product_x32(l, h)) / (h - l)
}

/// Liquidity obtainable from `amount_1` of token_1 alone over `[l, h]`:
/// `floor(amount_1 * 2^32 / (h - l))`.
pub open spec fn liquidity_from_amount_1(l: int, h: int, amount_1: int) -> int {
    (amount_1 * (Q32 as int)) / (h - l)
}

/// Token_0 needed to back `liquidity` over `[l, h]`:
/// `floor(floor(liquidity * 2^32 * (h - l) / h) / l)`.
pub open spec fn amount_0_for_liquidity(l: int, h: int, liquidity: int) -> int {
    ((liquidity * (Q32 as int)) * (h - l) / h) / l
}

/// Token_1 needed to back `liquidity` over `[l, h]`:
/// `floor(liquidity * (h - l) / 2^32)`.
pub open spec fn amount_1_for_liquidity(l: int, h: int, liquidity: int) -> int {
    (liquidity * (h - l)) / (Q32 as int)
}

/// Outcome of the token_0-to-liquidity conversion over `[l, h]`, with its
/// error cases: a degenerate range is rejected before any divide, then the
/// intermediate boundary product must fit in 64 bits and the liquidity in 32.
pub open spec fn liquidity_from_amount_0_result(l: int, h: int, amount_0: int) -> Result<
    u32,
    LiquidityError,
> {
    if l == h {
        Err(LiquidityError::RangeDegenerate)
    } else if boundary_product_x32(l, h) > u64::MAX {
        Err(LiquidityError::ArithmeticOverflow)
    } else if liquidity_from_amount_0(l, h, amount_0) > u32::MAX {
        Err(LiquidityError::ArithmeticOverflow)
    } else {
        Ok(liquidity_from_amount_0(l, h, amount_0) as u32)
    }
}

/// Outcome of the token_1-to-liquidity conversion over `[l, h]`, with its
/// error cases.
pub open spec fn liquidity_from_amount_1_result(l: int, h: int, amount_1: int) -> Result<
    u32,
    LiquidityError,
> {
    if l == h {
        Err(LiquidityError::RangeDegenerate)
    } else if liquidity_from_amount_1(l, h, amount_1) > u32::MAX {
        Err(LiquidityError::ArithmeticOverflow)
    } else {
        Ok(liquidity_from_amount_1(l, h, amount_1) as u32)
    }
}

/// Outcome of the liquidity-to-token_0 conversion over `[l, h]`, with its
/// error cases: a degenerate range is rejected before any divide, and a zero
/// lower boundary cannot stand as the final divisor.  The amount itself
/// always fits in 64 bits.
pub open spec fn amount_0_for_liquidity_result(l: int, h: int, liquidity: int) -> Result<
    u64,
    LiquidityError,
> {
    if l == h {
        Err(LiquidityError::RangeDegenerate)
    } else if l == 0 {
        Err(LiquidityError::InvalidInput)
    } else {
        Ok(amount_0_for_liquidity(l, h, liquidity) as u64)
    }
}

/// Outcome of the combined amounts-to-liquidity conversion: a three-way
/// branch on the current price against the normalized range, where boundary
/// ties resolve to the single-sided conversions and the two-sided case takes
/// the minimum of the liquidity each deposited amount supports.
pub open spec fn liquidity_from_amounts_result(
    price: int,
    l: int,
    h: int,
    amount_0: int,
    amount_1: int,
) -> Result<u32, LiquidityError> {
    match range_position(price, l, h) {
        RangePosition::BelowRange => liquidity_from_amount_0_result(l, h, amount_0),
        RangePosition::WithinRange => match (
            liquidity_from_amount_0_result(price, h, amount_0),
            liquidity_from_amount_1_result(l, price, amount_1),
        ) {
            (Ok(liq0), Ok(liq1)) => Ok(
                if liq0 <= liq1 {
                    liq0
                } else {
                    liq1
                },
            ),
            (Err(e), _) => Err(e),
            (Ok(_), Err(e)) => Err(e),
        },
        RangePosition::AboveRange => liquidity_from_amount_1_result(l, h, amount_1),
    }
}

/// Outcome of the combined liquidity-to-amounts conversion, mirroring the
/// three-way branch of `liquidity_from_amounts_result`: all value in token_0
/// below the range, split strictly inside it, all value in token_1 above it.
pub open spec fn amounts_for_liquidity_result(price: int, l: int, h: int, liquidity: int) -> Result<
    (u64, u64),
    LiquidityError,
> {
    match range_position(price, l, h) {
        RangePosition::BelowRange => match amount_0_for_liquidity_result(l, h, liquidity) {
            Ok(a0) => Ok((a0, 0u64)),
            Err(e) => Err(e),
        },
        RangePosition::WithinRange => match amount_0_for_liquidity_result(price, h, liquidity) {
            Ok(a0) => Ok((a0, amount_1_for_liquidity(l, price, liquidity) as u64)),
            Err(e) => Err(e),
        },
        RangePosition::AboveRange => Ok((0u64, amount_1_for_liquidity(l, h, liquidity) as u64)),
    }
}

/// Returns the boundary pair ordered so the smaller price comes first, as an
/// explicit normalization step: callers work on an ordered pair rather than
/// swapping in place.
pub fn normalize_boundaries(sqrt_ratio_a_x32: u64, sqrt_ratio_b_x32: u64) -> (r: (u64, u64))
    ensures
        r.0 == sqrt_lower(sqrt_ratio_a_x32, sqrt_ratio_b_x32),
        r.1 == sqrt_upper(sqrt_ratio_a_x32, sqrt_ratio_b_x32),
        r.0 <= r.1,
{
    if sqrt_ratio_a_x32 <= sqrt_ratio_b_x32 {
        (sqrt_ratio_a_x32, sqrt_ratio_b_x32)
    } else {
        (sqrt_ratio_b_x32, sqrt_ratio_a_x32)
    }
}

/// Classifies the current price against a normalized range; boundary ties
/// resolve to the single-sided positions.
pub fn classify_range_position(sqrt_ratio_x32: u64, lower: u64, upper: u64) -> (r: RangePosition)
    requires
        lower <= upper,
    ensures
        r == range_position(sqrt_ratio_x32 as int, lower as int, upper as int),
{
    if sqrt_ratio_x32 <= lower {
        RangePosition::BelowRange
    } else if sqrt_ratio_x32 < upper {
        RangePosition::WithinRange
    } else {
        RangePosition::AboveRange
    }
}

/// Computes the liquidity received for a given amount of token_0 and a price
/// range, assuming the current price is at or below the range:
/// `ΔL = Δx * (√P_upper * √P_lower) / (√P_upper - √P_lower)`.
///
/// Boundaries may come in either order.  Fails on a zero-width range and
/// whenever the intermediate boundary product or the final liquidity does
/// not fit its width; the result is always floored.
pub fn get_liquidity_for_amount_0(sqrt_ratio_a_x32: u64, sqrt_ratio_b_x32: u64, amount_0: u64) -> (r:
    Result<u32, LiquidityError>)
    ensures
        r == liquidity_from_amount_0_result(
            sqrt_lower(sqrt_ratio_a_x32, sqrt_ratio_b_x32),
            sqrt_upper(sqrt_ratio_a_x32, sqrt_ratio_b_x32),
            amount_0 as int,
        ),
{
    let (lower, upper) = normalize_boundaries(sqrt_ratio_a_x32, sqrt_ratio_b_x32);
    if lower == upper {
        return Err(LiquidityError::RangeDegenerate);
    }
    let intermediate = match mul_div_floor(lower, upper, Q32) {
        Some(i) => i,
        None => {
            return Err(LiquidityError::ArithmeticOverflow);
        },
    };
    let liquidity = match mul_div_floor(amount_0, intermediate, upper - lower) {
        Some(v) => v,
        None => {
            return Err(LiquidityError::ArithmeticOverflow);
        },
    };
    if liquidity > u32::MAX as u64 {
        return Err(LiquidityError::ArithmeticOverflow);
    }
    Ok(liquidity as u32)
}

/// Computes the liquidity received for a given amount of token_1 and a price
/// range, assuming the current price is at or above the range:
/// `ΔL = Δy / (√P_upper - √P_lower)`.
///
/// Boundaries may come in either order.  Fails on a zero-width range and when
/// the liquidity does not fit in 32 bits; the result is always floored.
pub fn get_liquidity_for_amount_1(sqrt_ratio_a_x32: u64, sqrt_ratio_b_x32: u64, amount_1: u64) -> (r:
    Result<u32, LiquidityError>)
    ensures
        r == liquidity_from_amount_1_result(
            sqrt_lower(sqrt_ratio_a_x32, sqrt_ratio_b_x32),
            sqrt_upper(sqrt_ratio_a_x32, sqrt_ratio_b_x32),
            amount_1 as int,
        ),
{
    let (lower, upper) = normalize_boundaries(sqrt_ratio_a_x32, sqrt_ratio_b_x32);
    if lower == upper {
        return Err(LiquidityError::RangeDegenerate);
    }
    let liquidity = match mul_div_floor(amount_1, Q32, upper - lower) {
        Some(v) => v,
        None => {
            return Err(LiquidityError::ArithmeticOverflow);
        },
    };
    if liquidity > u32::MAX as u64 {
        return Err(LiquidityError::ArithmeticOverflow);
    }
    Ok(liquidity as u32)
}

/// Computes the maximum liquidity received for given amounts of token_0 and
/// token_1, the current pool price and the prices at the range boundaries.
///
/// Below the range only token_0 counts; above it only token_1; strictly
/// inside it the result is the minimum of the liquidity either amount
/// supports, since a deposit must be usable on both sides without exceeding
/// either amount.  A current price exactly on a boundary resolves to the
/// single-sided conversion.
pub fn get_liquidity_for_amounts(
    sqrt_ratio_x32: u64,
    sqrt_ratio_a_x32: u64,
    sqrt_ratio_b_x32: u64,
    amount_0: u64,
    amount_1: u64,
) -> (r: Result<u32, LiquidityError>)
    ensures
        r == liquidity_from_amounts_result(
            sqrt_ratio_x32 as int,
            sqrt_lower(sqrt_ratio_a_x32, sqrt_ratio_b_x32),
            sqrt_upper(sqrt_ratio_a_x32, sqrt_ratio_b_x32),
            amount_0 as int,
            amount_1 as int,
        ),
{
    let (lower, upper) = normalize_boundaries(sqrt_ratio_a_x32, sqrt_ratio_b_x32);
    match classify_range_position(sqrt_ratio_x32, lower, upper) {
        RangePosition::BelowRange => get_liquidity_for_amount_0(lower, upper, amount_0),
        RangePosition::WithinRange => {
            let liq0 = match get_liquidity_for_amount_0(sqrt_ratio_x32, upper, amount_0) {
                Ok(v) => v,
                Err(e) => {
                    return Err(e);
                },
            };
            let liq1 = match get_liquidity_for_amount_1(lower, sqrt_ratio_x32, amount_1) {
                Ok(v) => v,
                Err(e) => {
                    return Err(e);
                },
            };
            Ok(
                if liq0 <= liq1 {
                    liq0
                } else {
                    liq1
                },
            )
        },
        RangePosition::AboveRange => get_liquidity_for_amount_1(lower, upper, amount_1),
    }
}

/// Computes the amount of token_0 needed to back a given liquidity over a
/// price range: `Δx = ΔL * (√P_upper - √P_lower) / (√P_upper * √P_lower)`,
/// evaluated as a scaled multiply-divide followed by an integer divide.
///
/// Boundaries may come in either order.  Fails on a zero-width range and on
/// a zero lower boundary; the intermediate quotient provably fits in 64
/// bits, so no overflow can occur.
pub fn get_amount_0_for_liquidity(
    sqrt_ratio_a_x32: u64,
    sqrt_ratio_b_x32: u64,
    liquidity: u32,
) -> (r: Result<u64, LiquidityError>)
    ensures
        r == amount_0_for_liquidity_result(
            sqrt_lower(sqrt_ratio_a_x32, sqrt_ratio_b_x32),
            sqrt_upper(sqrt_ratio_a_x32, sqrt_ratio_b_x32),
            liquidity as int,
        ),
{
    let (lower, upper) = normalize_boundaries(sqrt_ratio_a_x32, sqrt_ratio_b_x32);
    if lower == upper {
        return Err(LiquidityError::RangeDegenerate);
    }
    if lower == 0 {
        return Err(LiquidityError::InvalidInput);
    }
    let shifted: u64 = (liquidity as u64) * Q32;
    proof {
        let s = shifted as int;
        let h = upper as int;
        let w = upper as int - lower as int;
        assert(s * w <= s * h) by (nonlinear_arith)
            requires
                0 <= s,
                0 <= w,
                w <= h,
        ;
        vstd::arithmetic::div_mod::lemma_div_is_ordered(s * w, s * h, h);
        vstd::arithmetic::mul::lemma_mul_is_commutative(s, h);
        vstd::arithmetic::div_mod::lemma_div_multiples_vanish(s, h);
        assert(s * w / h <= s);
        vstd::arithmetic::mul::lemma_mul_nonnegative(s, w);
        vstd::arithmetic::div_mod::lemma_div_pos_is_pos(s * w, h);
    }
    let scaled = mul_div_floor(shifted, upper - lower, upper).unwrap();
    proof {
        vstd::arithmetic::div_mod::lemma_div_pos_is_pos(scaled as int, lower as int);
        vstd::arithmetic::div_mod::lemma_div_nonincreasing(scaled as int, lower as int);
    }
    Ok(scaled / lower)
}

/// Computes the amount of token_1 needed to back a given liquidity over a
/// price range: `Δy = ΔL * (√P_upper - √P_lower)`, scaled back from Q32.32.
///
/// Boundaries may come in either order.  This conversion is total: the
/// quotient provably fits in 64 bits and a zero-width range simply yields
/// zero.
pub fn get_amount_1_for_liquidity(
    sqrt_ratio_a_x32: u64,
    sqrt_ratio_b_x32: u64,
    liquidity: u32,
) -> (r: u64)
    ensures
        r == amount_1_for_liquidity(
            sqrt_lower(sqrt_ratio_a_x32, sqrt_ratio_b_x32),
            sqrt_upper(sqrt_ratio_a_x32, sqrt_ratio_b_x32),
            liquidity as int,
        ),
{
    let (lower, upper) = normalize_boundaries(sqrt_ratio_a_x32, sqrt_ratio_b_x32);
    proof {
        let li = liquidity as int;
        let w = upper as int - lower as int;
        assert(li * w <= 0xffff_ffff * 0xffff_ffff_ffff_ffff) by (nonlinear_arith)
            requires
                0 <= li,
                li <= 0xffff_ffff,
                0 <= w,
                w <= 0xffff_ffff_ffff_ffff,
        ;
        vstd::arithmetic::div_mod::lemma_div_is_ordered(
            li * w,
            0xffff_ffff as int * 0xffff_ffff_ffff_ffff as int,
            Q32 as int,
        );
    }
    mul_div_floor(liquidity as u64, upper - lower, Q32).unwrap()
}

/// Computes the token_0 and token_1 value backing a given liquidity at the
/// current pool price, mirroring the three-way branch of
/// `get_liquidity_for_amounts`: all value in token_0 below the range, a
/// split strictly inside it, all value in token_1 above it, with boundary
/// ties resolving to the single-sided cases.
pub fn get_amounts_for_liquidity(
    sqrt_ratio_x32: u64,
    sqrt_ratio_a_x32: u64,
    sqrt_ratio_b_x32: u64,
    liquidity: u32,
) -> (r: Result<(u64, u64), LiquidityError>)
    ensures
        r == amounts_for_liquidity_result(
            sqrt_ratio_x32 as int,
            sqrt_lower(sqrt_ratio_a_x32, sqrt_ratio_b_x32),
            sqrt_upper(sqrt_ratio_a_x32, sqrt_ratio_b_x32),
            liquidity as int,
        ),
{
    let (lower, upper) = normalize_boundaries(sqrt_ratio_a_x32, sqrt_ratio_b_x32);
    match classify_range_position(sqrt_ratio_x32, lower, upper) {
        RangePosition::BelowRange => match get_amount_0_for_liquidity(lower, upper, liquidity) {
            Ok(a0) => Ok((a0, 0)),
            Err(e) => Err(e),
        },
        RangePosition::WithinRange => match get_amount_0_for_liquidity(
            sqrt_ratio_x32,
            upper,
            liquidity,
        ) {
            Ok(a0) => Ok((a0, get_amount_1_for_liquidity(lower, sqrt_ratio_x32, liquidity))),
            Err(e) => Err(e),
        },
        RangePosition::AboveRange => Ok((0, get_amount_1_for_liquidity(lower, upper, liquidity))),
    }
}

} // verus!
