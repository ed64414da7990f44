//! Scenario tests for the liquidity-amount conversions, with prices built
//! from human-readable reserve ratios.

use liquidity_math::liquidity_amounts::{
    get_amounts_for_liquidity, get_liquidity_for_amounts,
};
use liquidity_math::sqrt_price::encode_price_sqrt_x32;

#[test]
fn liquidity_amounts_price_within_range() {
    let price_sqrt_x32 = encode_price_sqrt_x32(1, 1);
    let price_sqrt_a_x32 = encode_price_sqrt_x32(100, 110);
    let price_sqrt_b_x32 = encode_price_sqrt_x32(110, 100);
    let liquidity = get_liquidity_for_amounts(
        price_sqrt_x32,
        price_sqrt_a_x32,
        price_sqrt_b_x32,
        100,
        200,
    )
    .unwrap();
    assert_eq!(liquidity, 2148);
}

#[test]
fn liquidity_amounts_price_below_range() {
    let price_sqrt_x32 = encode_price_sqrt_x32(99, 110);
    let price_sqrt_a_x32 = encode_price_sqrt_x32(100, 110);
    let price_sqrt_b_x32 = encode_price_sqrt_x32(110, 100);
    let liquidity = get_liquidity_for_amounts(
        price_sqrt_x32,
        price_sqrt_a_x32,
        price_sqrt_b_x32,
        100,
        200,
    )
    .unwrap();
    assert_eq!(liquidity, 1048);
}

#[test]
fn liquidity_amounts_price_above_range() {
    let price_sqrt_x32 = encode_price_sqrt_x32(111, 100);
    let price_sqrt_a_x32 = encode_price_sqrt_x32(100, 110);
    let price_sqrt_b_x32 = encode_price_sqrt_x32(110, 100);
    let liquidity = get_liquidity_for_amounts(
        price_sqrt_x32,
        price_sqrt_a_x32,
        price_sqrt_b_x32,
        100,
        200,
    )
    .unwrap();
    assert_eq!(liquidity, 2097);
}

#[test]
fn liquidity_amounts_price_at_lower_boundary() {
    let price_sqrt_a_x32 = encode_price_sqrt_x32(100, 110);
    let price_sqrt_x32 = price_sqrt_a_x32;
    let price_sqrt_b_x32 = encode_price_sqrt_x32(110, 100);
    let liquidity = get_liquidity_for_amounts(
        price_sqrt_x32,
        price_sqrt_a_x32,
        price_sqrt_b_x32,
        100,
        200,
    )
    .unwrap();
    assert_eq!(liquidity, 1048);
}

#[test]
fn liquidity_amounts_price_at_upper_boundary() {
    let price_sqrt_a_x32 = encode_price_sqrt_x32(100, 110);
    let price_sqrt_b_x32 = encode_price_sqrt_x32(110, 100);
    let price_sqrt_x32 = price_sqrt_b_x32;
    let liquidity = get_liquidity_for_amounts(
        price_sqrt_x32,
        price_sqrt_a_x32,
        price_sqrt_b_x32,
        100,
        200,
    )
    .unwrap();
    assert_eq!(liquidity, 2097);
}

#[test]
fn price_within_range() {
    let price_sqrt_x32 = encode_price_sqrt_x32(1, 1);
    let price_sqrt_a_x32 = encode_price_sqrt_x32(100, 110);
    let price_sqrt_b_x32 = encode_price_sqrt_x32(110, 100);
    let amounts =
        get_amounts_for_liquidity(price_sqrt_x32, price_sqrt_a_x32, price_sqrt_b_x32, 2148)
            .unwrap();
    assert_eq!(amounts.0, 99);
    assert_eq!(amounts.1, 99);
}

#[test]
fn price_below_range() {
    let price_sqrt_x32 = encode_price_sqrt_x32(99, 110);
    let price_sqrt_a_x32 = encode_price_sqrt_x32(100, 110);
    let price_sqrt_b_x32 = encode_price_sqrt_x32(110, 100);
    let amounts =
        get_amounts_for_liquidity(price_sqrt_x32, price_sqrt_a_x32, price_sqrt_b_x32, 1048)
            .unwrap();
    assert_eq!(amounts.0, 99);
    assert_eq!(amounts.1, 0);
}

#[test]
fn price_above_range() {
    let price_sqrt_x32 = encode_price_sqrt_x32(111, 100);
    let price_sqrt_a_x32 = encode_price_sqrt_x32(100, 110);
    let price_sqrt_b_x32 = encode_price_sqrt_x32(110, 100);
    let amounts =
        get_amounts_for_liquidity(price_sqrt_x32, price_sqrt_a_x32, price_sqrt_b_x32, 2097)
            .unwrap();
    assert_eq!(amounts.0, 0);
    assert_eq!(amounts.1, 199);
}

#[test]
fn price_at_lower_boundary() {
    let price_sqrt_a_x32 = encode_price_sqrt_x32(100, 110);
    let price_sqrt_x32 = price_sqrt_a_x32;
    let price_sqrt_b_x32 = encode_price_sqrt_x32(110, 100);
    let amounts =
        get_amounts_for_liquidity(price_sqrt_x32, price_sqrt_a_x32, price_sqrt_b_x32, 1048)
            .unwrap();
    assert_eq!(amounts.0, 99);
    assert_eq!(amounts.1, 0);
}

#[test]
fn price_at_upper_boundary() {
    let price_sqrt_a_x32 = encode_price_sqrt_x32(100, 110);
    let price_sqrt_b_x32 = encode_price_sqrt_x32(110, 100);
    let price_sqrt_x32 = price_sqrt_b_x32;
    let amounts =
        get_amounts_for_liquidity(price_sqrt_x32, price_sqrt_a_x32, price_sqrt_b_x32, 2097)
            .unwrap();
    assert_eq!(amounts.0, 0);
    assert_eq!(amounts.1, 199);
}
