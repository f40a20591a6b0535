//! The vector type and its canonical wire format.

use vstd::prelude::*;
use vstd::slice::slice_subrange;
use crate::codec::{
    be_bytes_of, be_u64_of, lemma_be_bytes_of_be_u64_of, lemma_be_u64_of_be_bytes_of,
    u64_from_be_bytes, u64_to_be_bytes,
};
use crate::ieee::{float_bits_eq, float_eq_bits, is_finite_bits};
use crate::round::{ceil_bits, floor_bits, rounds_down_to, rounds_up_to};

verus! {

/// A three-component vector of IEEE-754 binary64 values, each component
/// held as its 64-bit pattern (the value of `f64::to_bits`).
///
/// The type is a plain copyable value with no invariant on the
/// components: NaN and infinity patterns are as legal as any other.
/// Derived equality (`==`) compares the patterns bit for bit;
/// [`Vector3::float_eq`] compares the components as IEEE-754 values,
/// under which NaN differs from itself and -0.0 equals +0.0.
#[derive(Clone, Copy, Debug, PartialEq, Eq, Structural)]
pub struct Vector3 {
    /// Bit pattern of the x component.
    pub x: u64,
    /// Bit pattern of the y component.
    pub y: u64,
    /// Bit pattern of the z component.
    pub z: u64,
}

/// The one recoverable failure of the library: deserialization was
/// handed a buffer of the wrong length.
#[derive(Clone, Copy, Debug, PartialEq, Eq, Structural)]
pub enum Vector3Error {
    /// The buffer handed to `from_be_bytes` did not hold exactly 24 bytes.
    LengthMismatch,
}

impl Vector3 {
    /// Builds a vector from three component bit patterns, with no
    /// validation of any kind.
    pub fn new(x: u64, y: u64, z: u64) -> (v: Vector3)
        ensures
            v == (Vector3 { x, y, z }),
    {
        Vector3 { x, y, z }
    }

    /// The additive identity: every component is +0.0, whose pattern is 0.
    pub fn new_zero() -> (v: Vector3)
        ensures
            v == (Vector3 { x: 0u64, y: 0u64, z: 0u64 }),
    {
        Vector3 { x: 0, y: 0, z: 0 }
    }

    /// The 24-byte wire form of the vector: x, then y, then z, each as
    /// eight big-endian bytes.
    pub open spec fn spec_to_be_bytes(self) -> Seq<u8> {
        be_bytes_of(self.x) + be_bytes_of(self.y) + be_bytes_of(self.z)
    }

    /// The vector a 24-byte wire form decodes to.
    pub open spec fn spec_from_be_bytes(s: Seq<u8>) -> Vector3
        recommends
            s.len() == 24,
    {
        Vector3 {
            x: be_u64_of(s.subrange(0, 8)),
            y: be_u64_of(s.subrange(8, 16)),
            z: be_u64_of(s.subrange(16, 24)),
        }
    }

    /// Componentwise IEEE-754 equality as a spec value: every pair of
    /// components is equal under `float_eq_bits`.
    pub open spec fn spec_float_eq(self, other: Vector3) -> bool {
        &&& float_eq_bits(self.x, other.x)
        &&& float_eq_bits(self.y, other.y)
        &&& float_eq_bits(self.z, other.z)
    }

    /// The memory representation of this vector as 24 bytes in
    /// big-endian byte order: x, then y, then z. Deterministic and
    /// lossless for every pattern, NaN and infinity included.
    pub fn to_be_bytes(&self) -> (r: Vec<u8>)
        ensures
            r@ == self.spec_to_be_bytes(),
            r@.len() == 24,
    {
        let mut r = u64_to_be_bytes(self.x);
        let mut tail_y = u64_to_be_bytes(self.y);
        let mut tail_z = u64_to_be_bytes(self.z);
        r.append(&mut tail_y);
        r.append(&mut tail_z);
        proof {
            assert(r@ =~= self.spec_to_be_bytes());
        }
        r
    }

    /// Reads a vector back from its 24-byte big-endian wire form.
    /// A buffer of any other length is rejected with
    /// [`Vector3Error::LengthMismatch`]; no input makes this panic.
    pub fn from_be_bytes(bytes: &[u8]) -> (r: Result<Vector3, Vector3Error>)
        ensures
            bytes@.len() == 24 ==> r == Ok::<Vector3, Vector3Error>(
                Vector3::spec_from_be_bytes(bytes@),
            ),
            bytes@.len() != 24 ==> r == Err::<Vector3, Vector3Error>(Vector3Error::LengthMismatch),
    {
        if bytes.len() != 24 {
            return Err(Vector3Error::LengthMismatch);
        }
        let x = u64_from_be_bytes(slice_subrange(bytes, 0, 8));
        let y = u64_from_be_bytes(slice_subrange(bytes, 8, 16));
        let z = u64_from_be_bytes(slice_subrange(bytes, 16, 24));
        Ok(Vector3 { x, y, z })
    }

    /// Rounds each component down to the nearest integer. NaN and
    /// infinity components pass through unchanged, and a zero result
    /// keeps the sign of its component.
    pub fn floor(&self) -> (r: Vector3)
        ensures
            is_finite_bits(self.x) ==> rounds_down_to(self.x, r.x),
            is_finite_bits(self.y) ==> rounds_down_to(self.y, r.y),
            is_finite_bits(self.z) ==> rounds_down_to(self.z, r.z),
            !is_finite_bits(self.x) ==> r.x == self.x,
            !is_finite_bits(self.y) ==> r.y == self.y,
            !is_finite_bits(self.z) ==> r.z == self.z,
    {
        Vector3 { x: floor_bits(self.x), y: floor_bits(self.y), z: floor_bits(self.z) }
    }

    /// Rounds each component up to the nearest integer. NaN and
    /// infinity components pass through unchanged, and a zero result
    /// keeps the sign of its component.
    pub fn ceil(&self) -> (r: Vector3)
        ensures
            is_finite_bits(self.x) ==> rounds_up_to(self.x, r.x),
            is_finite_bits(self.y) ==> rounds_up_to(self.y, r.y),
            is_finite_bits(self.z) ==> rounds_up_to(self.z, r.z),
            !is_finite_bits(self.x) ==> r.x == self.x,
            !is_finite_bits(self.y) ==> r.y == self.y,
            !is_finite_bits(self.z) ==> r.z == self.z,
    {
        Vector3 { x: ceil_bits(self.x), y: ceil_bits(self.y), z: ceil_bits(self.z) }
    }

    /// Componentwise IEEE-754 equality of two vectors: true exactly
    /// when every component pair is equal as a floating-point value.
    /// A vector with a NaN component is unequal even to itself, and a
    /// -0.0 component equals a +0.0 one; for pattern identity use `==`.
    pub fn float_eq(&self, other: &Vector3) -> (r: bool)
        ensures
            r == self.spec_float_eq(*other),
    {
        float_bits_eq(self.x, other.x) && float_bits_eq(self.y, other.y) && float_bits_eq(
            self.z,
            other.z,
        )
    }
}

impl Default for Vector3 {
    /// The default vector equals `new_zero()`: all components +0.0.
    fn default() -> (v: Vector3)
        ensures
            v == (Vector3 { x: 0u64, y: 0u64, z: 0u64 }),
    {
        Vector3::new_zero()
    }
}

/// Law: deserializing a serialized vector reproduces the exact bit
/// pattern of every component — for all vectors, NaN and infinity
/// patterns included.
pub proof fn lemma_bytes_round_trip(v: Vector3)
    ensures
        v.spec_to_be_bytes().len() == 24,
        Vector3::spec_from_be_bytes(v.spec_to_be_bytes()) == v,
{
    let s = v.spec_to_be_bytes();
    lemma_be_u64_of_be_bytes_of(v.x);
    lemma_be_u64_of_be_bytes_of(v.y);
    lemma_be_u64_of_be_bytes_of(v.z);
    assert(s.subrange(0, 8) =~= be_bytes_of(v.x));
    assert(s.subrange(8, 16) =~= be_bytes_of(v.y));
    assert(s.subrange(16, 24) =~= be_bytes_of(v.z));
}

/// Law: a vector whose components are all finite is, after a
/// serialization round trip, equal to itself as an IEEE-754 value —
/// not merely bit for bit.
pub proof fn lemma_finite_round_trip_float_eq(v: Vector3)
    requires
        is_finite_bits(v.x),
        is_finite_bits(v.y),
        is_finite_bits(v.z),
    ensures
        Vector3::spec_from_be_bytes(v.spec_to_be_bytes()).spec_float_eq(v),
{
    lemma_bytes_round_trip(v);
}

/// Law: serializing the vector read from any 24-byte buffer writes the
/// same 24 bytes back, so the wire format is a bijection between
/// vectors and 24-byte buffers.
pub proof fn lemma_bytes_round_trip_inverse(s: Seq<u8>)
    requires
        s.len() == 24,
    ensures
        Vector3::spec_from_be_bytes(s).spec_to_be_bytes() == s,
{
    lemma_be_bytes_of_be_u64_of(s.subrange(0, 8));
    lemma_be_bytes_of_be_u64_of(s.subrange(8, 16));
    lemma_be_bytes_of_be_u64_of(s.subrange(16, 24));
    assert(Vector3::spec_from_be_bytes(s).spec_to_be_bytes() =~= s);
}

} // verus!
