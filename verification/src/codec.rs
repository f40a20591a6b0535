//! Big-endian byte codec for 64-bit patterns.
//!
//! A `u64` here carries the bit pattern of an IEEE-754 binary64 value;
//! the codec writes and reads the eight bytes of that pattern with the
//! most significant byte first.

use vstd::prelude::*;
use vstd::seq_lib::*;

verus! {

/// The eight bytes of `x` in big-endian order: most significant first.
pub open spec fn be_bytes_of(x: u64) -> Seq<u8> {
    seq![
        ((x >> 56) & 0xff) as u8,
        ((x >> 48) & 0xff) as u8,
        ((x >> 40) & 0xff) as u8,
        ((x >> 32) & 0xff) as u8,
        ((x >> 24) & 0xff) as u8,
        ((x >> 16) & 0xff) as u8,
        ((x >> 8) & 0xff) as u8,
        (x & 0xff) as u8,
    ]
}

/// The 64-bit pattern read from eight big-endian bytes.
pub open spec fn be_u64_of(s: Seq<u8>) -> u64
    recommends
        s.len() == 8,
{
    ((s[0] as u64) << 56) | ((s[1] as u64) << 48) | ((s[2] as u64) << 40) | ((s[3] as u64) << 32)
        | ((s[4] as u64) << 24) | ((s[5] as u64) << 16) | ((s[6] as u64) << 8) | (s[7] as u64)
}

/// Decoding the encoding of any 64-bit pattern gives the pattern back.
pub proof fn lemma_be_u64_of_be_bytes_of(x: u64)
    ensures
        be_bytes_of(x).len() == 8,
        be_u64_of(be_bytes_of(x)) == x,
{
    assert({
        &&& (x >> 56) & 0xff < 256
        &&& (x >> 48) & 0xff < 256
        &&& (x >> 40) & 0xff < 256
        &&& (x >> 32) & 0xff < 256
        &&& (x >> 24) & 0xff < 256
        &&& (x >> 16) & 0xff < 256
        &&& (x >> 8) & 0xff < 256
        &&& x & 0xff < 256
    }) by (bit_vector);
    assert(x == (((x >> 56) & 0xff) << 56) | (((x >> 48) & 0xff) << 48) | (((x >> 40) & 0xff)
        << 40) | (((x >> 32) & 0xff) << 32) | (((x >> 24) & 0xff) << 24) | (((x >> 16) & 0xff)
        << 16) | (((x >> 8) & 0xff) << 8) | (x & 0xff)) by (bit_vector);
}

/// Encoding the pattern read from eight bytes gives the same bytes back:
/// on eight-byte buffers the codec is a bijection.
pub proof fn lemma_be_bytes_of_be_u64_of(s: Seq<u8>)
    requires
        s.len() == 8,
    ensures
        be_bytes_of(be_u64_of(s)) == s,
{
    let x = be_u64_of(s);
    let s0 = s[0] as u64;
    let s1 = s[1] as u64;
    let s2 = s[2] as u64;
    let s3 = s[3] as u64;
    let s4 = s[4] as u64;
    let s5 = s[5] as u64;
    let s6 = s[6] as u64;
    let s7 = s[7] as u64;
    assert(((x == (s0 << 56) | (s1 << 48) | (s2 << 40) | (s3 << 32) | (s4 << 24) | (s5 << 16) | (
    s6 << 8) | s7) && s0 < 256 && s1 < 256 && s2 < 256 && s3 < 256 && s4 < 256 && s5 < 256 && s6
        < 256 && s7 < 256) ==> (s0 == (x >> 56) & 0xff && s1 == (x >> 48) & 0xff && s2 == (x >> 40)
        & 0xff && s3 == (x >> 32) & 0xff && s4 == (x >> 24) & 0xff && s5 == (x >> 16) & 0xff && s6
        == (x >> 8) & 0xff && s7 == x & 0xff)) by (bit_vector);
    assert(be_bytes_of(be_u64_of(s)) =~= s);
}

/// Writes the eight big-endian bytes of `x`.
pub fn u64_to_be_bytes(x: u64) -> (s: Vec<u8>)
    ensures
        s@ == be_bytes_of(x),
        s@.len() == 8,
{
    proof {
        assert({
            &&& (x >> 56) & 0xff < 256
            &&& (x >> 48) & 0xff < 256
            &&& (x >> 40) & 0xff < 256
            &&& (x >> 32) & 0xff < 256
            &&& (x >> 24) & 0xff < 256
            &&& (x >> 16) & 0xff < 256
            &&& (x >> 8) & 0xff < 256
            &&& x & 0xff < 256
        }) by (bit_vector);
    }
    let mut s: Vec<u8> = Vec::new();
    s.push(((x >> 56) & 0xff) as u8);
    s.push(((x >> 48) & 0xff) as u8);
    s.push(((x >> 40) & 0xff) as u8);
    s.push(((x >> 32) & 0xff) as u8);
    s.push(((x >> 24) & 0xff) as u8);
    s.push(((x >> 16) & 0xff) as u8);
    s.push(((x >> 8) & 0xff) as u8);
    s.push((x & 0xff) as u8);
    proof {
        assert(s@ =~= be_bytes_of(x));
    }
    s
}

/// Reads a 64-bit pattern from eight big-endian bytes.
pub fn u64_from_be_bytes(s: &[u8]) -> (x: u64)
    requires
        s@.len() == 8,
    ensures
        x == be_u64_of(s@),
{
    ((s[0] as u64) << 56) | ((s[1] as u64) << 48) | ((s[2] as u64) << 40) | ((s[3] as u64) << 32)
        | ((s[4] as u64) << 24) | ((s[5] as u64) << 16) | ((s[6] as u64) << 8) | (s[7] as u64)
}

} // verus!
