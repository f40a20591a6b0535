//! A three-component vector of IEEE-754 binary64 values, held and
//! manipulated here at the level of their 64-bit patterns.
//!
//! The verified surface of the library is everything about the type
//! that is exact integer logic on those patterns: the canonical wire
//! format — 24 bytes, the three components in big-endian byte order, x
//! then y then z — the bit-level predicates (NaN, zero, finiteness)
//! that fix the meaning of componentwise equality, and the exact
//! rounding of components toward minus and plus infinity. Rounded
//! floating-point arithmetic is outside the verifier's reach and lives
//! with the callers; they exchange values with this library as bit
//! patterns obtained from `f64::to_bits` / `f64::from_bits`.

mod codec;
mod ieee;
mod round;
mod vector;

pub use codec::{
    be_bytes_of, be_u64_of, lemma_be_bytes_of_be_u64_of, lemma_be_u64_of_be_bytes_of,
    u64_from_be_bytes, u64_to_be_bytes,
};
pub use ieee::{
    exponent_bits, float_bits_eq, float_eq_bits, fraction_bits, is_finite_bits, is_nan_bits,
    is_zero_bits, scaled_value, sign_bit,
};
pub use round::{
    ceil_bits, floor_bits, rounds_down_to, rounds_up_to, scale_unit, scaled_ceil, scaled_floor,
};
pub use vector::{
    lemma_bytes_round_trip, lemma_bytes_round_trip_inverse, lemma_finite_round_trip_float_eq,
    Vector3, Vector3Error,
};
