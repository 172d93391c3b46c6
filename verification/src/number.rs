//! Numbers of the language: IEEE-754 binary64 values, held by their bit
//! patterns.
//!
//! The library compares and negates numbers, which are exact operations on
//! the bit pattern. Operations that round (the four arithmetic operations,
//! reading a literal, printing) are left to the host.

use vstd::prelude::*;

verus! {

/// The sign bit of a bit pattern.
pub const SIGN_BIT: u64 = 0x8000_0000_0000_0000;

/// The bit pattern of positive infinity; every magnitude above it is a NaN.
pub const INFINITY_BITS: u64 = 0x7ff0_0000_0000_0000;

/// The bit pattern without its sign bit.
pub open spec fn magnitude(bits: u64) -> u64 {
    if bits >= SIGN_BIT {
        (bits - SIGN_BIT) as u64
    } else {
        bits
    }
}

/// Whether the sign bit is set.
pub open spec fn is_negative(bits: u64) -> bool {
    bits >= SIGN_BIT
}

/// Whether the bit pattern is a NaN.
pub open spec fn is_nan(bits: u64) -> bool {
    magnitude(bits) > INFINITY_BITS
}

/// The place of a number that is no NaN in the order of numbers: numbers
/// are ordered as their places are, and both zeros share the place 0.
pub open spec fn place(bits: u64) -> int {
    if is_negative(bits) {
        -(magnitude(bits) as int)
    } else {
        magnitude(bits) as int
    }
}

/// IEEE-754 equality: a NaN equals nothing, the two zeros are equal, and
/// every other number equals only itself.
pub open spec fn number_eq(a: u64, b: u64) -> bool {
    !is_nan(a) && !is_nan(b) && place(a) == place(b)
}

/// IEEE-754 `<`: false where either side is a NaN.
pub open spec fn number_lt(a: u64, b: u64) -> bool {
    !is_nan(a) && !is_nan(b) && place(a) < place(b)
}

/// The number with the opposite sign.
pub open spec fn number_neg(bits: u64) -> u64 {
    if bits >= SIGN_BIT {
        (bits - SIGN_BIT) as u64
    } else {
        (bits + SIGN_BIT) as u64
    }
}

/// The bit pattern without its sign bit.
pub fn abs_bits(bits: u64) -> (r: u64)
    ensures
        r == magnitude(bits),
{
    if bits >= SIGN_BIT {
        bits - SIGN_BIT
    } else {
        bits
    }
}

/// Whether the bit pattern is a NaN.
pub fn nan_bits(bits: u64) -> (r: bool)
    ensures
        r == is_nan(bits),
{
    abs_bits(bits) > INFINITY_BITS
}

/// IEEE-754 equality of two numbers.
pub fn equal_bits(a: u64, b: u64) -> (r: bool)
    ensures
        r == number_eq(a, b),
{
    if nan_bits(a) || nan_bits(b) {
        false
    } else if a == b {
        true
    } else {
        abs_bits(a) == 0 && abs_bits(b) == 0
    }
}

/// IEEE-754 `<` of two numbers.
pub fn less_bits(a: u64, b: u64) -> (r: bool)
    ensures
        r == number_lt(a, b),
{
    if nan_bits(a) || nan_bits(b) {
        false
    } else if a >= SIGN_BIT {
        if b >= SIGN_BIT {
            abs_bits(a) > abs_bits(b)
        } else {
            abs_bits(a) > 0 || b > 0
        }
    } else {
        if b >= SIGN_BIT {
            false
        } else {
            a < b
        }
    }
}

/// The number with the opposite sign.
pub fn negate_bits(bits: u64) -> (r: u64)
    ensures
        r == number_neg(bits),
{
    if bits >= SIGN_BIT {
        bits - SIGN_BIT
    } else {
        bits + SIGN_BIT
    }
}

} // verus!
