//! Laws of the conversion engine, proved against the same spec functions the
//! executable contracts are stated over: boundary-order symmetry,
//! monotonicity in the deposited amount, the floor-rounding round-trip bound,
//! boundary tie-breaks, and conservation of the range split.

use vstd::prelude::*;

use vstd::arithmetic::div_mod::{
    lemma_div_by_self,
    lemma_div_is_ordered,
    lemma_div_multiples_vanish,
    lemma_div_nonincreasing,
    lemma_div_pos_is_pos,
    lemma_fundamental_div_mod,
    lemma_mod_division_less_than_divisor,
};
use vstd::arithmetic::mul::{
    lemma_mul_inequality,
    lemma_mul_is_associative,
    lemma_mul_is_commutative,
    lemma_mul_nonnegative,
};

use crate::fixed_point_x32::Q32;
use crate::liquidity_amounts::{
    amount_0_for_liquidity,
    amount_0_for_liquidity_result,
    amount_1_for_liquidity,
    amounts_for_liquidity_result,
    boundary_product_x32,
    liquidity_from_amount_0,
    liquidity_from_amount_0_result,
    liquidity_from_amount_1,
    liquidity_from_amount_1_result,
    liquidity_from_amounts_result,
    sqrt_lower,
    sqrt_upper,
    LiquidityError,
};

verus! {

/// The quantities the conversions divide by and floor are never negative.
pub proof fn lemma_liquidity_values_nonnegative(l: int, h: int, amount_0: int, amount_1: int)
    requires
        0 <= l,
        l < h,
        0 <= amount_0,
        0 <= amount_1,
    ensures
        0 <= boundary_product_x32(l, h),
        0 <= liquidity_from_amount_0(l, h, amount_0),
        0 <= liquidity_from_amount_1(l, h, amount_1),
{
    lemma_mul_nonnegative(l, h);
    lemma_div_pos_is_pos(l * h, Q32 as int);
    lemma_mul_nonnegative(amount_0, boundary_product_x32(l, h));
    lemma_div_pos_is_pos(amount_0 * boundary_product_x32(l, h), h - l);
    lemma_mul_nonnegative(amount_1, Q32 as int);
    lemma_div_pos_is_pos(amount_1 * (Q32 as int), h - l);
}

/// The token_0 amount backing a liquidity is non-negative and at most
/// `liquidity * 2^32`, so for a 32-bit liquidity it always fits in 64 bits.
pub proof fn lemma_amount_0_bounds(l: int, h: int, liquidity: int)
    requires
        1 <= l,
        l < h,
        0 <= liquidity,
    ensures
        0 <= amount_0_for_liquidity(l, h, liquidity),
        amount_0_for_liquidity(l, h, liquidity) <= liquidity * (Q32 as int),
{
    let s = liquidity * (Q32 as int);
    let w = h - l;
    lemma_mul_nonnegative(liquidity, Q32 as int);
    assert(s * w <= s * h) by (nonlinear_arith)
        requires
            0 <= s,
            0 <= w,
            w <= h,
    ;
    lemma_div_is_ordered(s * w, s * h, h);
    lemma_mul_is_commutative(s, h);
    lemma_div_multiples_vanish(s, h);
    lemma_mul_nonnegative(s, w);
    lemma_div_pos_is_pos(s * w, h);
    lemma_div_pos_is_pos(s * w / h, l);
    lemma_div_nonincreasing(s * w / h, l);
}

/// The token_1 amount backing a liquidity is non-negative and at most
/// `liquidity * (h - l) / 2^32`, so for a 32-bit liquidity over 64-bit
/// prices it always fits in 64 bits.
pub proof fn lemma_amount_1_bounds(l: int, h: int, liquidity: int)
    requires
        0 <= l,
        l <= h,
        h <= u64::MAX,
        0 <= liquidity,
        liquidity <= u32::MAX,
    ensures
        0 <= amount_1_for_liquidity(l, h, liquidity),
        amount_1_for_liquidity(l, h, liquidity) <= u64::MAX,
{
    let w = h - l;
    lemma_mul_nonnegative(liquidity, w);
    lemma_div_pos_is_pos(liquidity * w, Q32 as int);
    assert(liquidity * w <= 0xffff_ffff as int * 0xffff_ffff_ffff_ffff as int) by (nonlinear_arith)
        requires
            0 <= liquidity <= 0xffff_ffff,
            0 <= w <= 0xffff_ffff_ffff_ffff,
    ;
    lemma_div_is_ordered(
        liquidity * w,
        0xffff_ffff as int * 0xffff_ffff_ffff_ffff as int,
        Q32 as int,
    );
}

/// Monotonicity: liquidity from token_0 is non-decreasing in the deposited
/// amount, holding the boundaries fixed; and if the larger deposit converts
/// without overflow, so does the smaller.
pub proof fn lemma_liquidity_from_amount_0_monotonic(l: int, h: int, smaller: int, larger: int)
    requires
        0 <= l,
        l < h,
        0 <= smaller,
        smaller <= larger,
    ensures
        liquidity_from_amount_0(l, h, smaller) <= liquidity_from_amount_0(l, h, larger),
        liquidity_from_amount_0_result(l, h, larger) is Ok ==> liquidity_from_amount_0_result(
            l,
            h,
            smaller,
        ) is Ok,
{
    let i = boundary_product_x32(l, h);
    lemma_mul_nonnegative(l, h);
    lemma_div_pos_is_pos(l * h, Q32 as int);
    lemma_mul_inequality(smaller, larger, i);
    lemma_div_is_ordered(smaller * i, larger * i, h - l);
}

/// Monotonicity: liquidity from token_1 is non-decreasing in the deposited
/// amount, holding the boundaries fixed.
pub proof fn lemma_liquidity_from_amount_1_monotonic(l: int, h: int, smaller: int, larger: int)
    requires
        l < h,
        0 <= smaller,
        smaller <= larger,
    ensures
        liquidity_from_amount_1(l, h, smaller) <= liquidity_from_amount_1(l, h, larger),
        liquidity_from_amount_1_result(l, h, larger) is Ok ==> liquidity_from_amount_1_result(
            l,
            h,
            smaller,
        ) is Ok,
{
    lemma_mul_inequality(smaller, larger, Q32 as int);
    lemma_div_is_ordered(smaller * (Q32 as int), larger * (Q32 as int), h - l);
}

/// Monotonicity of the liquidity-to-token_0 conversion in the liquidity
/// argument.
pub proof fn lemma_amount_0_monotonic_in_liquidity(l: int, h: int, smaller: int, larger: int)
    requires
        1 <= l,
        l < h,
        0 <= smaller,
        smaller <= larger,
    ensures
        amount_0_for_liquidity(l, h, smaller) <= amount_0_for_liquidity(l, h, larger),
{
    let w = h - l;
    let s1 = smaller * (Q32 as int);
    let s2 = larger * (Q32 as int);
    lemma_mul_inequality(smaller, larger, Q32 as int);
    lemma_mul_inequality(s1, s2, w);
    lemma_div_is_ordered(s1 * w, s2 * w, h);
    lemma_div_is_ordered(s1 * w / h, s2 * w / h, l);
}

/// Monotonicity of the liquidity-to-token_1 conversion in the liquidity
/// argument.
pub proof fn lemma_amount_1_monotonic_in_liquidity(l: int, h: int, smaller: int, larger: int)
    requires
        l < h,
        0 <= smaller,
        smaller <= larger,
    ensures
        amount_1_for_liquidity(l, h, smaller) <= amount_1_for_liquidity(l, h, larger),
{
    let w = h - l;
    lemma_mul_inequality(smaller, larger, w);
    lemma_div_is_ordered(smaller * w, larger * w, Q32 as int);
}

/// Floor rounding never overstates token_0: converting an amount of token_0
/// to liquidity and back yields at most the original amount.
pub proof fn lemma_amount_0_round_trip(l: int, h: int, amount_0: int)
    requires
        1 <= l,
        l < h,
        0 <= amount_0,
    ensures
        amount_0_for_liquidity(l, h, liquidity_from_amount_0(l, h, amount_0)) <= amount_0,
{
    let q = Q32 as int;
    let w = h - l;
    let i = boundary_product_x32(l, h);
    let liq = liquidity_from_amount_0(l, h, amount_0);
    let s = liq * q;
    // liq * w <= amount_0 * i, because liq is the floored quotient
    lemma_fundamental_div_mod(amount_0 * i, w);
    lemma_mod_division_less_than_divisor(amount_0 * i, w);
    assert(liq * w <= amount_0 * i) by (nonlinear_arith)
        requires
            amount_0 * i == w * liq + (amount_0 * i) % w,
            0 <= (amount_0 * i) % w,
    ;
    // i * q <= l * h, because i is the floored boundary product
    lemma_fundamental_div_mod(l * h, q);
    lemma_mod_division_less_than_divisor(l * h, q);
    assert(i * q <= l * h) by (nonlinear_arith)
        requires
            l * h == q * i + (l * h) % q,
            0 <= (l * h) % q,
    ;
    // chain the two: s * w <= amount_0 * (l * h)
    assert(s * w <= (amount_0 * i) * q) by (nonlinear_arith)
        requires
            s == liq * q,
            liq * w <= amount_0 * i,
            q > 0,
    ;
    assert((amount_0 * i) * q <= amount_0 * (l * h)) by (nonlinear_arith)
        requires
            i * q <= l * h,
            0 <= amount_0,
    ;
    // divide back out by h, then by l
    lemma_div_is_ordered(s * w, amount_0 * (l * h), h);
    assert(amount_0 * (l * h) == (amount_0 * l) * h) by {
        lemma_mul_is_associative(amount_0, l, h);
    }
    lemma_mul_nonnegative(amount_0, l);
    lemma_mul_is_commutative(amount_0 * l, h);
    lemma_div_multiples_vanish(amount_0 * l, h);
    lemma_div_is_ordered(s * w / h, amount_0 * l, l);
    lemma_mul_is_commutative(amount_0, l);
    lemma_div_multiples_vanish(amount_0, l);
}

/// Floor rounding never overstates token_1: converting an amount of token_1
/// to liquidity and back yields at most the original amount.
pub proof fn lemma_amount_1_round_trip(l: int, h: int, amount_1: int)
    requires
        l < h,
        0 <= amount_1,
    ensures
        amount_1_for_liquidity(l, h, liquidity_from_amount_1(l, h, amount_1)) <= amount_1,
{
    let q = Q32 as int;
    let w = h - l;
    let liq = liquidity_from_amount_1(l, h, amount_1);
    lemma_fundamental_div_mod(amount_1 * q, w);
    lemma_mod_division_less_than_divisor(amount_1 * q, w);
    assert(liq * w <= amount_1 * q) by (nonlinear_arith)
        requires
            amount_1 * q == w * liq + (amount_1 * q) % w,
            0 <= (amount_1 * q) % w,
    ;
    lemma_div_is_ordered(liq * w, amount_1 * q, q);
    lemma_mul_is_commutative(amount_1, q);
    lemma_div_multiples_vanish(amount_1, q);
}

/// Normalization symmetry: every conversion produces the same outcome
/// whichever order the boundary pair is given in, since each is stated over
/// the normalized lower and upper boundary.
pub proof fn lemma_normalization_symmetry(
    price: u64,
    a: u64,
    b: u64,
    amount_0: u64,
    amount_1: u64,
    liquidity: u32,
)
    ensures
        sqrt_lower(a, b) == sqrt_lower(b, a),
        sqrt_upper(a, b) == sqrt_upper(b, a),
        liquidity_from_amount_0_result(sqrt_lower(a, b), sqrt_upper(a, b), amount_0 as int)
            == liquidity_from_amount_0_result(sqrt_lower(b, a), sqrt_upper(b, a), amount_0 as int),
        liquidity_from_amount_1_result(sqrt_lower(a, b), sqrt_upper(a, b), amount_1 as int)
            == liquidity_from_amount_1_result(sqrt_lower(b, a), sqrt_upper(b, a), amount_1 as int),
        liquidity_from_amounts_result(
            price as int,
            sqrt_lower(a, b),
            sqrt_upper(a, b),
            amount_0 as int,
            amount_1 as int,
        ) == liquidity_from_amounts_result(
            price as int,
            sqrt_lower(b, a),
            sqrt_upper(b, a),
            amount_0 as int,
            amount_1 as int,
        ),
        amount_0_for_liquidity_result(sqrt_lower(a, b), sqrt_upper(a, b), liquidity as int)
            == amount_0_for_liquidity_result(sqrt_lower(b, a), sqrt_upper(b, a), liquidity as int),
        amount_1_for_liquidity(sqrt_lower(a, b), sqrt_upper(a, b), liquidity as int)
            == amount_1_for_liquidity(sqrt_lower(b, a), sqrt_upper(b, a), liquidity as int),
        amounts_for_liquidity_result(price as int, sqrt_lower(a, b), sqrt_upper(a, b), liquidity as int)
            == amounts_for_liquidity_result(
            price as int,
            sqrt_lower(b, a),
            sqrt_upper(b, a),
            liquidity as int,
        ),
{
}

/// Boundary tie-break at the lower end: with the current price exactly on
/// the lower boundary, both combined conversions resolve to the single-sided
/// token_0 branch, not the two-sided one.
pub proof fn lemma_lower_boundary_tie_break(
    price: u64,
    a: u64,
    b: u64,
    amount_0: u64,
    amount_1: u64,
    liquidity: u32,
)
    requires
        price as int == sqrt_lower(a, b),
        sqrt_lower(a, b) < sqrt_upper(a, b),
    ensures
        liquidity_from_amounts_result(
            price as int,
            sqrt_lower(a, b),
            sqrt_upper(a, b),
            amount_0 as int,
            amount_1 as int,
        ) == liquidity_from_amount_0_result(sqrt_lower(a, b), sqrt_upper(a, b), amount_0 as int),
        amounts_for_liquidity_result(price as int, sqrt_lower(a, b), sqrt_upper(a, b), liquidity as int)
            == (match amount_0_for_liquidity_result(
            sqrt_lower(a, b),
            sqrt_upper(a, b),
            liquidity as int,
        ) {
            Ok(a0) => Ok((a0, 0u64)),
            Err(e) => Err(e),
        }),
{
}

/// Boundary tie-break at the upper end: with the current price exactly on
/// the upper boundary, both combined conversions resolve to the single-sided
/// token_1 branch, not the two-sided one.
pub proof fn lemma_upper_boundary_tie_break(
    price: u64,
    a: u64,
    b: u64,
    amount_0: u64,
    amount_1: u64,
    liquidity: u32,
)
    requires
        price as int == sqrt_upper(a, b),
        sqrt_lower(a, b) < sqrt_upper(a, b),
    ensures
        liquidity_from_amounts_result(
            price as int,
            sqrt_lower(a, b),
            sqrt_upper(a, b),
            amount_0 as int,
            amount_1 as int,
        ) == liquidity_from_amount_1_result(sqrt_lower(a, b), sqrt_upper(a, b), amount_1 as int),
        amounts_for_liquidity_result(price as int, sqrt_lower(a, b), sqrt_upper(a, b), liquidity as int)
            == Ok::<(u64, u64), LiquidityError>(
            (0u64, amount_1_for_liquidity(sqrt_lower(a, b), sqrt_upper(a, b), liquidity as int) as u64),
        ),
{
}

/// Range-split conservation: strictly inside the range, a positive liquidity
/// is backed by a strictly positive amount on at least one side, whenever
/// one of the two sides is large enough to survive its floor.  Either
/// `liquidity * (price - l) >= 2^32` (the token_1 side does not floor to
/// zero) or `liquidity * 2^32 * (h - price) >= price * h` (the token_0 side
/// does not).  Without either condition both floors can reach zero: one
/// unit of liquidity over a one-unit-wide range at a large enough price
/// backs no whole token on either side.
pub proof fn lemma_range_split_conservation(price: int, l: int, h: int, liquidity: int)
    requires
        0 <= l,
        l < price,
        price < h,
        1 <= liquidity,
        liquidity * (price - l) >= Q32 as int || liquidity * (Q32 as int) * (h - price) >= price
            * h,
    ensures
        amount_0_for_liquidity(price, h, liquidity) > 0 || amount_1_for_liquidity(
            l,
            price,
            liquidity,
        ) > 0,
{
    let q = Q32 as int;
    if liquidity * (price - l) >= q {
        lemma_div_is_ordered(q, liquidity * (price - l), q);
        lemma_div_by_self(q);
        assert(amount_1_for_liquidity(l, price, liquidity) >= 1);
    } else {
        let s = liquidity * q;
        assert(s * (h - price) == liquidity * q * (h - price)) by {
            lemma_mul_is_associative(liquidity, q, h - price);
        }
        lemma_div_is_ordered(price * h, s * (h - price), h);
        lemma_mul_is_commutative(price, h);
        lemma_div_multiples_vanish(price, h);
        assert(s * (h - price) / h >= price);
        lemma_div_is_ordered(price, s * (h - price) / h, price);
        lemma_div_by_self(price);
        assert(amount_0_for_liquidity(price, h, liquidity) >= 1);
    }
}

/// Rounding direction of the composition: amounts computed back from a
/// liquidity that was itself floored from deposited amounts never exceed the
/// original deposit, at any position of the current price.
pub proof fn lemma_round_trip_within_deposit(
    price: u64,
    a: u64,
    b: u64,
    amount_0: u64,
    amount_1: u64,
    liquidity: u32,
    returned_0: u64,
    returned_1: u64,
)
    requires
        liquidity_from_amounts_result(
            price as int,
            sqrt_lower(a, b),
            sqrt_upper(a, b),
            amount_0 as int,
            amount_1 as int,
        ) == Ok::<u32, LiquidityError>(liquidity),
        amounts_for_liquidity_result(price as int, sqrt_lower(a, b), sqrt_upper(a, b), liquidity as int)
            == Ok::<(u64, u64), LiquidityError>((returned_0, returned_1)),
    ensures
        returned_0 <= amount_0,
        returned_1 <= amount_1,
{
    let p = price as int;
    let l = sqrt_lower(a, b);
    let h = sqrt_upper(a, b);
    let x = amount_0 as int;
    let y = amount_1 as int;
    if p <= l {
        lemma_liquidity_values_nonnegative(l, h, x, y);
        let liq = liquidity_from_amount_0(l, h, x);
        assert(liquidity == liq);
        assert(l != 0);
        lemma_amount_0_bounds(l, h, liq);
        assert(returned_0 == amount_0_for_liquidity(l, h, liq));
        lemma_amount_0_round_trip(l, h, x);
    } else if p < h {
        lemma_liquidity_values_nonnegative(p, h, x, y);
        lemma_liquidity_values_nonnegative(l, p, x, y);
        let v0 = liquidity_from_amount_0(p, h, x);
        let v1 = liquidity_from_amount_1(l, p, y);
        let liq = liquidity as int;
        assert(liq <= v0 && liq <= v1);
        lemma_amount_0_bounds(p, h, liq);
        assert(returned_0 == amount_0_for_liquidity(p, h, liq));
        lemma_amount_0_monotonic_in_liquidity(p, h, liq, v0);
        lemma_amount_0_round_trip(p, h, x);
        lemma_amount_1_bounds(l, p, liq);
        assert(returned_1 == amount_1_for_liquidity(l, p, liq));
        lemma_amount_1_monotonic_in_liquidity(l, p, liq, v1);
        lemma_amount_1_round_trip(l, p, y);
    } else {
        lemma_liquidity_values_nonnegative(l, h, x, y);
        let liq = liquidity_from_amount_1(l, h, y);
        assert(liquidity == liq);
        lemma_amount_1_bounds(l, h, liq);
        assert(returned_1 == amount_1_for_liquidity(l, h, liq));
        lemma_amount_1_round_trip(l, h, y);
    }
}

} // verus!
