//! Classification of IEEE 754 binary64 bit patterns.
//!
//! The selection engine never performs binary64 arithmetic itself: a
//! binary64 value enters and leaves the library as the `u64` bit pattern
//! that `to_bits` / `from_bits` exchange it with.  Everything the engine
//! needs to decide — is a parameter a NaN, is it below zero, is a weight
//! infinite or zero — is a function of that pattern alone, and is defined
//! and verified here over plain bit operations.

use vstd::prelude::*;

verus! {

/// Mask of the sign bit of a binary64 pattern.
pub const SIGN_MASK: u64 = 0x8000_0000_0000_0000;

/// Mask of the exponent and fraction bits (everything but the sign).
pub const ABS_MASK: u64 = 0x7fff_ffff_ffff_ffff;

/// Pattern of positive infinity: exponent all ones, fraction zero.
pub const INF_BITS: u64 = 0x7ff0_0000_0000_0000;

/// Pattern of the value one.
pub const ONE_BITS: u64 = 0x3ff0_0000_0000_0000;

/// Pattern of positive zero.
pub const ZERO_BITS: u64 = 0;

/// The pattern with its sign bit cleared.
pub open spec fn abs_bits(b: u64) -> u64 {
    b & ABS_MASK
}

/// The pattern encodes a NaN: exponent all ones and a nonzero fraction.
pub open spec fn is_nan(b: u64) -> bool {
    abs_bits(b) > INF_BITS
}

/// The pattern encodes positive or negative infinity.
pub open spec fn is_infinite(b: u64) -> bool {
    abs_bits(b) == INF_BITS
}

/// The pattern encodes a zero of either sign.
pub open spec fn is_zero(b: u64) -> bool {
    abs_bits(b) == 0
}

/// The pattern encodes a value strictly below zero: the sign bit is set and
/// the pattern is neither a zero nor a NaN.  This is exactly when the IEEE
/// comparison `value < 0` holds.
pub open spec fn is_below_zero(b: u64) -> bool {
    b > SIGN_MASK && !is_nan(b)
}

/// Whether the pattern is a NaN.
pub fn check_nan(b: u64) -> (r: bool)
    ensures
        r == is_nan(b),
{
    (b & ABS_MASK) > INF_BITS
}

/// Whether the pattern is an infinity of either sign.
pub fn check_infinite(b: u64) -> (r: bool)
    ensures
        r == is_infinite(b),
{
    (b & ABS_MASK) == INF_BITS
}

/// Whether the pattern is a zero of either sign.
pub fn check_zero(b: u64) -> (r: bool)
    ensures
        r == is_zero(b),
{
    (b & ABS_MASK) == 0
}

/// Whether the pattern encodes a value strictly below zero.
pub fn check_below_zero(b: u64) -> (r: bool)
    ensures
        r == is_below_zero(b),
{
    b > SIGN_MASK && !check_nan(b)
}

} // verus!
