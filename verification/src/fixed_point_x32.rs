//! Constants of the unsigned Q32.32 fixed-point encoding used for square-root
//! prices: 32 integer bits and 32 fractional bits in a 64-bit magnitude.

use vstd::prelude::*;

verus! {

/// Number of fractional bits in a Q32.32 value.
pub const RESOLUTION: u8 = 32;

/// The fixed-point scale: 2^32, the representation of 1.0 in Q32.32.
pub const Q32: u64 = 0x1_0000_0000;

} // verus!
