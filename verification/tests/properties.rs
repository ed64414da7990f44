//! Tests of the stated properties on concrete values: boundary-order
//! symmetry, monotonicity, rounding direction, boundary tie-breaks, the
//! range split, the error cases, and the exact price encoding.

use liquidity_math::liquidity_amounts::{
    get_amount_0_for_liquidity, get_amount_1_for_liquidity, get_amounts_for_liquidity,
    get_liquidity_for_amount_0, get_liquidity_for_amount_1, get_liquidity_for_amounts,
    normalize_boundaries, LiquidityError,
};
use liquidity_math::mul_div_floor;
use liquidity_math::sqrt_price::encode_price_sqrt_x32;

fn range() -> (u64, u64) {
    (encode_price_sqrt_x32(100, 110), encode_price_sqrt_x32(110, 100))
}

#[test]
fn encode_price_exact_values() {
    assert_eq!(encode_price_sqrt_x32(1, 1), 4294967296);
    assert_eq!(encode_price_sqrt_x32(100, 110), 4095090639);
    assert_eq!(encode_price_sqrt_x32(110, 100), 4504599703);
    assert_eq!(encode_price_sqrt_x32(99, 110), 4074563739);
    assert_eq!(encode_price_sqrt_x32(111, 100), 4525028831);
    assert_eq!(encode_price_sqrt_x32(0, 3), 0);
    assert_eq!(encode_price_sqrt_x32(4, 1), 2 * 4294967296);
}

#[test]
fn mul_div_floor_cases() {
    assert_eq!(mul_div_floor(6, 4, 5), Some(4));
    assert_eq!(mul_div_floor(6, 4, 0), None);
    assert_eq!(mul_div_floor(u64::MAX, u64::MAX, 1), None);
    assert_eq!(mul_div_floor(u64::MAX, u64::MAX, u64::MAX), Some(u64::MAX));
}

#[test]
fn normalize_orders_the_pair() {
    assert_eq!(normalize_boundaries(9, 3), (3, 9));
    assert_eq!(normalize_boundaries(3, 9), (3, 9));
    assert_eq!(normalize_boundaries(5, 5), (5, 5));
}

#[test]
fn boundary_order_symmetry() {
    let (pa, pb) = range();
    let p = encode_price_sqrt_x32(1, 1);
    assert_eq!(
        get_liquidity_for_amount_0(pa, pb, 100),
        get_liquidity_for_amount_0(pb, pa, 100)
    );
    assert_eq!(
        get_liquidity_for_amount_1(pa, pb, 200),
        get_liquidity_for_amount_1(pb, pa, 200)
    );
    assert_eq!(
        get_liquidity_for_amounts(p, pa, pb, 100, 200),
        get_liquidity_for_amounts(p, pb, pa, 100, 200)
    );
    assert_eq!(
        get_amount_0_for_liquidity(pa, pb, 1048),
        get_amount_0_for_liquidity(pb, pa, 1048)
    );
    assert_eq!(
        get_amount_1_for_liquidity(pa, pb, 2097),
        get_amount_1_for_liquidity(pb, pa, 2097)
    );
    assert_eq!(
        get_amounts_for_liquidity(p, pa, pb, 2148),
        get_amounts_for_liquidity(p, pb, pa, 2148)
    );
}

#[test]
fn single_sided_exact_values() {
    let (pa, pb) = range();
    assert_eq!(get_liquidity_for_amount_0(pa, pb, 100), Ok(1048));
    assert_eq!(get_liquidity_for_amount_1(pa, pb, 200), Ok(2097));
    assert_eq!(get_amount_0_for_liquidity(pa, pb, 1048), Ok(99));
    assert_eq!(get_amount_1_for_liquidity(pa, pb, 2097), 199);
}

#[test]
fn liquidity_monotonic_in_amount() {
    let (pa, pb) = range();
    assert_eq!(get_liquidity_for_amount_0(pa, pb, 200), Ok(2097));
    assert!(get_liquidity_for_amount_0(pa, pb, 100).unwrap() <= 2097);
    assert_eq!(get_liquidity_for_amount_1(pa, pb, 400), Ok(4195));
    assert!(get_liquidity_for_amount_1(pa, pb, 200).unwrap() <= 4195);
}

#[test]
fn round_trip_never_exceeds_deposit() {
    let (pa, pb) = range();
    for price in [
        encode_price_sqrt_x32(99, 110),
        pa,
        encode_price_sqrt_x32(1, 1),
        pb,
        encode_price_sqrt_x32(111, 100),
    ] {
        let liquidity = get_liquidity_for_amounts(price, pa, pb, 100, 200).unwrap();
        let (returned_0, returned_1) =
            get_amounts_for_liquidity(price, pa, pb, liquidity).unwrap();
        assert!(returned_0 <= 100);
        assert!(returned_1 <= 200);
    }
}

#[test]
fn boundary_tie_breaks_are_single_sided() {
    let (pa, pb) = range();
    assert_eq!(
        get_liquidity_for_amounts(pa, pa, pb, 100, 200),
        get_liquidity_for_amount_0(pa, pb, 100)
    );
    assert_eq!(
        get_liquidity_for_amounts(pb, pa, pb, 100, 200),
        get_liquidity_for_amount_1(pa, pb, 200)
    );
    assert_eq!(
        get_amounts_for_liquidity(pa, pa, pb, 1048),
        Ok((get_amount_0_for_liquidity(pa, pb, 1048).unwrap(), 0))
    );
    assert_eq!(
        get_amounts_for_liquidity(pb, pa, pb, 2097),
        Ok((0, get_amount_1_for_liquidity(pa, pb, 2097)))
    );
}

#[test]
fn range_split_has_a_positive_side() {
    let (pa, pb) = range();
    let p = encode_price_sqrt_x32(1, 1);
    let (returned_0, returned_1) = get_amounts_for_liquidity(p, pa, pb, 2148).unwrap();
    assert!(returned_0 > 0 || returned_1 > 0);
}

#[test]
fn degenerate_range_is_rejected() {
    assert_eq!(
        get_liquidity_for_amount_0(7, 7, 100),
        Err(LiquidityError::RangeDegenerate)
    );
    assert_eq!(
        get_liquidity_for_amount_1(7, 7, 100),
        Err(LiquidityError::RangeDegenerate)
    );
    assert_eq!(
        get_liquidity_for_amounts(3, 7, 7, 100, 200),
        Err(LiquidityError::RangeDegenerate)
    );
    assert_eq!(
        get_amount_0_for_liquidity(7, 7, 100),
        Err(LiquidityError::RangeDegenerate)
    );
    assert_eq!(
        get_amounts_for_liquidity(3, 7, 7, 100),
        Err(LiquidityError::RangeDegenerate)
    );
    // the token_1 inverse is total: a zero-width range backs zero tokens
    assert_eq!(get_amount_1_for_liquidity(5, 5, 7), 0);
}

#[test]
fn overflow_is_surfaced() {
    // the boundary product exceeds 64 bits
    assert_eq!(
        get_liquidity_for_amount_0(u64::MAX, u64::MAX - 1, 1),
        Err(LiquidityError::ArithmeticOverflow)
    );
    // the liquidity exceeds 32 bits
    assert_eq!(
        get_liquidity_for_amount_1(0, 1, u64::MAX),
        Err(LiquidityError::ArithmeticOverflow)
    );
}

#[test]
fn zero_lower_price_is_invalid_for_token_0_amount() {
    assert_eq!(
        get_amount_0_for_liquidity(0, 5, 10),
        Err(LiquidityError::InvalidInput)
    );
    assert_eq!(
        get_amounts_for_liquidity(0, 0, 5, 10),
        Err(LiquidityError::InvalidInput)
    );
}
