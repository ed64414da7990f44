//! Liquidity math for a concentrated-liquidity market maker.
//!
//! Converts between an abstract liquidity magnitude supplied over a bounded
//! price range and the concrete token amounts that liquidity represents at a
//! given current price.  Prices are square roots of the token_1/token_0
//! reserve ratio in unsigned Q32.32 fixed point; every conversion floors its
//! result and every narrowing step is overflow-checked.

pub mod fixed_point_x32;
pub mod laws;
pub mod liquidity_amounts;
pub mod mul_div;
pub mod sqrt_price;

pub use crate::mul_div::mul_div_floor;
