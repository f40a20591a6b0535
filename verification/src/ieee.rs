//! Predicates on the bit pattern of an IEEE-754 binary64 value.
//!
//! A binary64 pattern is one sign bit, an 11-bit biased exponent and a
//! 52-bit fraction. Every non-NaN value has exactly one pattern except
//! zero, which has two (+0.0 and -0.0); these predicates are all the
//! structure the library needs to read equality and finiteness off the
//! bits without floating-point arithmetic.

use vstd::prelude::*;
use vstd::arithmetic::power2::pow2;

verus! {

/// The sign bit of the pattern: set for negative values and -0.0.
pub open spec fn sign_bit(x: u64) -> bool {
    x >> 63 == 1
}

/// The biased exponent field of the pattern: bits 52 through 62.
pub open spec fn exponent_bits(x: u64) -> u64 {
    (x >> 52) & 0x7ff
}

/// The fraction (significand) field of the pattern: the low 52 bits.
pub open spec fn fraction_bits(x: u64) -> u64 {
    x & 0xf_ffff_ffff_ffff
}

/// The pattern encodes a NaN: exponent all ones and a nonzero fraction.
pub open spec fn is_nan_bits(x: u64) -> bool {
    exponent_bits(x) == 0x7ff && fraction_bits(x) != 0
}

/// The pattern encodes +0.0 or -0.0: everything but the sign bit clear.
pub open spec fn is_zero_bits(x: u64) -> bool {
    x & 0x7fff_ffff_ffff_ffff == 0
}

/// The pattern encodes a finite value: neither infinity nor NaN.
pub open spec fn is_finite_bits(x: u64) -> bool {
    exponent_bits(x) != 0x7ff
}

/// The exact value a finite pattern encodes, scaled by 2^1074 so that
/// it is an integer: a subnormal pattern (exponent field 0) encodes
/// f * 2^-1074, and a normal one (2^52 + f) * 2^(e - 1075), each
/// negated when the sign bit is set. Scaled by 2^1074, the value 1.0
/// becomes `pow2(1074)` and the integers become its multiples.
pub open spec fn scaled_value(x: u64) -> int {
    let mag: int = if exponent_bits(x) == 0 {
        fraction_bits(x) as int
    } else {
        (0x10_0000_0000_0000 + fraction_bits(x) as int) * (pow2(
            (exponent_bits(x) - 1) as nat,
        ) as int)
    };
    if sign_bit(x) {
        -mag
    } else {
        mag
    }
}

/// IEEE-754 equality of two binary64 values, read off their patterns:
/// a NaN equals nothing, the two zeroes equal each other, and any other
/// value equals exactly the value with the same pattern.
pub open spec fn float_eq_bits(a: u64, b: u64) -> bool {
    &&& !is_nan_bits(a)
    &&& !is_nan_bits(b)
    &&& (a == b || (is_zero_bits(a) && is_zero_bits(b)))
}

/// Decides `float_eq_bits` on two component patterns.
pub fn float_bits_eq(a: u64, b: u64) -> (r: bool)
    ensures
        r == float_eq_bits(a, b),
{
    let a_nan = (a >> 52) & 0x7ff == 0x7ff && a & 0xf_ffff_ffff_ffff != 0;
    let b_nan = (b >> 52) & 0x7ff == 0x7ff && b & 0xf_ffff_ffff_ffff != 0;
    !a_nan && !b_nan && (a == b || (a & 0x7fff_ffff_ffff_ffff == 0 && b
        & 0x7fff_ffff_ffff_ffff == 0))
}

} // verus!
