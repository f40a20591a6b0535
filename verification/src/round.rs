//! Rounding toward minus and plus infinity on binary64 bit patterns.
//!
//! Floor and ceiling of a binary64 value are always representable, so
//! both operations can be carried out — and verified — as pure integer
//! manipulation of the bit pattern, against the exact scaled-value
//! model of [`crate::ieee::scaled_value`].

use vstd::prelude::*;
use vstd::arithmetic::div_mod::{lemma_fundamental_div_mod, lemma_fundamental_div_mod_converse};
use vstd::arithmetic::power2::{
    lemma2_to64_rest, lemma_pow2_adds, lemma_pow2_pos, lemma_pow2_strictly_increases,
    lemma_pow2_unfold, pow2,
};
use vstd::bits::{
    low_bits_mask, lemma_u64_low_bits_mask_is_mod, lemma_u64_pow2_no_overflow,
    lemma_u64_shl_is_mul,
};
use crate::ieee::{exponent_bits, fraction_bits, is_finite_bits, scaled_value, sign_bit};

verus! {

/// The scaled form of the value 1.0: a scaled value is an integer in
/// the ordinary sense exactly when it is a multiple of this.
pub open spec fn scale_unit() -> int {
    pow2(1074) as int
}

/// `s` rounded down to the nearest multiple of `scale_unit()`: the
/// encoded value rounded toward minus infinity, still in scaled form.
pub open spec fn scaled_floor(s: int) -> int {
    (s / scale_unit()) * scale_unit()
}

/// `s` rounded up to the nearest multiple of `scale_unit()`.
pub open spec fn scaled_ceil(s: int) -> int {
    -scaled_floor(-s)
}

/// `r` encodes the value of `x` rounded toward minus infinity and
/// carries the sign of `x`, so the sign of a zero result is the sign
/// of `x`, as IEEE-754 floor demands.
pub open spec fn rounds_down_to(x: u64, r: u64) -> bool {
    &&& is_finite_bits(r)
    &&& sign_bit(r) == sign_bit(x)
    &&& scaled_value(r) == scaled_floor(scaled_value(x))
}

/// `r` encodes the value of `x` rounded toward plus infinity and
/// carries the sign of `x`.
pub open spec fn rounds_up_to(x: u64, r: u64) -> bool {
    &&& is_finite_bits(r)
    &&& sign_bit(r) == sign_bit(x)
    &&& scaled_value(r) == scaled_ceil(scaled_value(x))
}

/// A decomposition `s == n * scale_unit() + rem` with the remainder in
/// `[0, scale_unit())` identifies the floor of `s`.
proof fn lemma_scaled_floor_from_parts(s: int, n: int, rem: int)
    requires
        s == n * scale_unit() + rem,
        0 <= rem < scale_unit(),
    ensures
        scaled_floor(s) == n * scale_unit(),
{
    lemma_pow2_pos(1074);
    lemma_fundamental_div_mod_converse(s, scale_unit(), n, rem);
}

/// The full mantissa `m` of a normal pattern `x` — implicit leading
/// bit plus fraction — and what its low `k` bits are: the same as the
/// low `k` bits of `x`, and its remainder modulo 2^k.
proof fn lemma_mantissa_mod(x: u64, k: u64, mask: u64, m: u64)
    requires
        1 <= k <= 52,
        mask == (1u64 << k) - 1,
        m == (0x10_0000_0000_0000u64 | (x & 0xf_ffff_ffff_ffff)),
    ensures
        m == 0x10_0000_0000_0000 + (x & 0xf_ffff_ffff_ffff),
        (1u64 << k) == pow2(k as nat),
        mask == pow2(k as nat) - 1,
        (m as int) % (pow2(k as nat) as int) == (x & mask) as int,
        x & mask <= mask,
{
    lemma_u64_pow2_no_overflow(k as nat);
    lemma_u64_shl_is_mul(1u64, k);
    lemma_pow2_pos(k as nat);
    assert(m == 0x10_0000_0000_0000 + (x & 0xf_ffff_ffff_ffff)) by (bit_vector)
        requires
            m == (0x10_0000_0000_0000u64 | (x & 0xf_ffff_ffff_ffff)),
    ;
    assert(m & mask == x & mask && x & mask <= mask) by (bit_vector)
        requires
            1 <= k <= 52,
            mask == (1u64 << k) - 1,
            m == (0x10_0000_0000_0000u64 | (x & 0xf_ffff_ffff_ffff)),
    ;
    assert(mask as nat == low_bits_mask(k as nat));
    lemma_u64_low_bits_mask_is_mod(m, k as nat);
}

/// A pattern whose exponent field is at least 1075 has no fraction
/// bits below the ones place: it is already an integer.
proof fn lemma_floor_large(x: u64)
    requires
        is_finite_bits(x),
        exponent_bits(x) >= 1075,
    ensures
        rounds_down_to(x, x),
{
    let e = exponent_bits(x);
    let f = fraction_bits(x);
    let m: int = 0x10_0000_0000_0000 + f as int;
    assert(((e - 1075) as nat) + 1074 == (e - 1) as nat);
    lemma_pow2_adds((e - 1075) as nat, 1074);
    lemma_pow2_pos(1074);
    let q: int = m * pow2((e - 1075) as nat) as int;
    assert(m * (pow2((e - 1) as nat) as int) == q * scale_unit()) by (nonlinear_arith)
        requires
            pow2((e - 1) as nat) == pow2((e - 1075) as nat) * pow2(1074),
            q == m * pow2((e - 1075) as nat) as int,
            scale_unit() == pow2(1074) as int,
    ;
    if sign_bit(x) {
        assert((-q) * scale_unit() == -(q * scale_unit())) by (nonlinear_arith);
        lemma_scaled_floor_from_parts(scaled_value(x), -q, 0);
    } else {
        lemma_scaled_floor_from_parts(scaled_value(x), q, 0);
    }
}

/// A pattern whose exponent field is at most 1022 encodes a magnitude
/// strictly below 1.0.
proof fn lemma_small_magnitude(x: u64)
    requires
        exponent_bits(x) <= 1022,
    ensures
        -scale_unit() < scaled_value(x) < scale_unit(),
        sign_bit(x) ==> scaled_value(x) <= 0,
        !sign_bit(x) ==> scaled_value(x) >= 0,
{
    let e = exponent_bits(x);
    let f = fraction_bits(x);
    assert(x & 0xf_ffff_ffff_ffff < 0x10_0000_0000_0000) by (bit_vector);
    lemma2_to64_rest();
    lemma_pow2_pos(1074);
    if e == 0 {
        lemma_pow2_strictly_increases(52, 1074);
    } else {
        if e - 1 < 1021 {
            lemma_pow2_strictly_increases((e - 1) as nat, 1021);
        }
        lemma_pow2_adds(53, 1021);
        lemma_pow2_pos((e - 1) as nat);
        assert((0x10_0000_0000_0000 + f as int) * (pow2((e - 1) as nat) as int) < scale_unit())
            by (nonlinear_arith)
            requires
                (0x10_0000_0000_0000 + f as int) < pow2(53) as int,
                0 < (pow2((e - 1) as nat) as int) <= pow2(1021) as int,
                pow2(53) * pow2(1021) == pow2(1074),
                scale_unit() == pow2(1074) as int,
        ;
        assert((0x10_0000_0000_0000 + f as int) * (pow2((e - 1) as nat) as int) >= 0)
            by (nonlinear_arith)
            requires
                f as int >= 0,
                pow2((e - 1) as nat) as int > 0,
        ;
    }
}

/// Floor of a positive value below 1.0 is +0.0.
proof fn lemma_floor_small_pos(x: u64)
    requires
        exponent_bits(x) <= 1022,
        x >> 63 == 0,
    ensures
        rounds_down_to(x, 0u64),
{
    lemma_small_magnitude(x);
    lemma_pow2_pos(1074);
    assert(0u64 >> 63 == 0 && (0u64 >> 52) & 0x7ff == 0 && 0u64 & 0xf_ffff_ffff_ffff == 0)
        by (bit_vector);
    lemma_scaled_floor_from_parts(scaled_value(x), 0, scaled_value(x));
}

/// Floor of -0.0 is -0.0.
proof fn lemma_floor_neg_zero(x: u64)
    requires
        x == 0x8000_0000_0000_0000,
    ensures
        rounds_down_to(x, x),
{
    assert(x >> 63 == 1 && (x >> 52) & 0x7ff == 0 && x & 0xf_ffff_ffff_ffff == 0) by (bit_vector)
        requires
            x == 0x8000_0000_0000_0000u64,
    ;
    lemma_pow2_pos(1074);
    lemma_scaled_floor_from_parts(scaled_value(x), 0, 0);
}

/// Floor of a negative value in (-1.0, -0.0) is exactly -1.0.
proof fn lemma_floor_small_neg(x: u64)
    requires
        exponent_bits(x) <= 1022,
        x >> 63 == 1,
        x != 0x8000_0000_0000_0000,
    ensures
        rounds_down_to(x, 0xbff0_0000_0000_0000u64),
{
    let r: u64 = 0xbff0_0000_0000_0000;
    assert(r >> 63 == 1 && (r >> 52) & 0x7ff == 1023 && r & 0xf_ffff_ffff_ffff == 0) by (bit_vector)
        requires
            r == 0xbff0_0000_0000_0000u64,
    ;
    lemma2_to64_rest();
    lemma_pow2_adds(52, 1022);
    lemma_pow2_pos(1074);
    let e = exponent_bits(x);
    let f = fraction_bits(x);
    if e == 0 {
        assert(x & 0xf_ffff_ffff_ffff != 0) by (bit_vector)
            requires
                x >> 63 == 1,
                (x >> 52) & 0x7ff == 0,
                x != 0x8000_0000_0000_0000u64,
        ;
    } else {
        lemma_pow2_pos((e - 1) as nat);
        assert((0x10_0000_0000_0000 + f as int) * (pow2((e - 1) as nat) as int) > 0)
            by (nonlinear_arith)
            requires
                f as int >= 0,
                pow2((e - 1) as nat) as int > 0,
        ;
    }
    lemma_small_magnitude(x);
    lemma_scaled_floor_from_parts(scaled_value(x), -1, scaled_value(x) + scale_unit());
}

/// Floor of a pattern with exponent field in [1023, 1074] whose low
/// `k = 1075 - e` bits are clear: the value is already an integer.
proof fn lemma_floor_integral(x: u64, k: u64, mask: u64)
    requires
        1023 <= exponent_bits(x) <= 1074,
        k == 1075 - exponent_bits(x),
        mask == (1u64 << k) - 1,
        x & mask == 0,
    ensures
        rounds_down_to(x, x),
{
    let e = exponent_bits(x);
    let m: u64 = 0x10_0000_0000_0000u64 | (x & 0xf_ffff_ffff_ffff);
    lemma_mantissa_mod(x, k, mask, m);
    let pk: int = pow2(k as nat) as int;
    lemma_pow2_pos(k as nat);
    lemma_fundamental_div_mod(m as int, pk);
    let q: int = m as int / pk;
    assert(((k as nat) + ((e - 1) as nat)) == 1074);
    lemma_pow2_adds(k as nat, (e - 1) as nat);
    lemma_pow2_pos(1074);
    assert((m as int) * (pow2((e - 1) as nat) as int) == q * scale_unit()) by (nonlinear_arith)
        requires
            m as int == q * pk,
            pk * (pow2((e - 1) as nat) as int) == scale_unit(),
    ;
    if sign_bit(x) {
        assert((-q) * scale_unit() == -(q * scale_unit())) by (nonlinear_arith);
        lemma_scaled_floor_from_parts(scaled_value(x), -q, 0);
    } else {
        lemma_scaled_floor_from_parts(scaled_value(x), q, 0);
    }
}

/// Floor of a positive non-integral value with exponent field in
/// [1023, 1074]: clearing the `k` fractional bits truncates toward
/// zero, which for a positive value is toward minus infinity.
proof fn lemma_floor_truncate_pos(x: u64, k: u64, mask: u64, fr: u64, r: u64)
    requires
        x >> 63 == 0,
        1023 <= exponent_bits(x) <= 1074,
        k == 1075 - exponent_bits(x),
        mask == (1u64 << k) - 1,
        fr == x & mask,
        fr != 0,
        r == x - fr,
    ensures
        rounds_down_to(x, r),
{
    let e = exponent_bits(x);
    let m: u64 = 0x10_0000_0000_0000u64 | (x & 0xf_ffff_ffff_ffff);
    lemma_mantissa_mod(x, k, mask, m);
    assert(r >> 63 == 0 && (r >> 52) & 0x7ff == (x >> 52) & 0x7ff && r & 0xf_ffff_ffff_ffff == (x
        & 0xf_ffff_ffff_ffff) - fr) by (bit_vector)
        requires
            1 <= k <= 52,
            x >> 63 == 0,
            1023 <= (x >> 52) & 0x7ff <= 1074,
            mask == (1u64 << k) - 1,
            fr == x & mask,
            r == x - fr,
    ;
    let pk: int = pow2(k as nat) as int;
    lemma_pow2_pos(k as nat);
    lemma_fundamental_div_mod(m as int, pk);
    let q: int = m as int / pk;
    let c: int = pow2((e - 1) as nat) as int;
    lemma_pow2_pos((e - 1) as nat);
    assert(((k as nat) + ((e - 1) as nat)) == 1074);
    lemma_pow2_adds(k as nat, (e - 1) as nat);
    lemma_pow2_pos(1074);
    assert((m as int - fr as int) * c == q * scale_unit()) by (nonlinear_arith)
        requires
            m as int == q * pk + fr as int,
            pk * c == scale_unit(),
    ;
    assert((m as int) * c == (m as int - fr as int) * c + (fr as int) * c) by (nonlinear_arith);
    assert(0 <= (fr as int) * c < scale_unit()) by (nonlinear_arith)
        requires
            0 <= (fr as int) < pk,
            c > 0,
            pk * c == scale_unit(),
    ;
    lemma_scaled_floor_from_parts(scaled_value(x), q, (fr as int) * c);
}

/// Floor of a negative non-integral value with exponent field in
/// [1023, 1074]: clear the `k` fractional bits, then step one whole
/// unit away from zero, letting the mantissa carry into the exponent
/// field when it overflows.
proof fn lemma_floor_truncate_neg(x: u64, k: u64, mask: u64, fr: u64, r: u64)
    requires
        x >> 63 == 1,
        1023 <= exponent_bits(x) <= 1074,
        k == 1075 - exponent_bits(x),
        mask == (1u64 << k) - 1,
        fr == x & mask,
        fr != 0,
        r == x - fr + (1u64 << k),
    ensures
        rounds_down_to(x, r),
{
    let e = exponent_bits(x);
    let m: u64 = 0x10_0000_0000_0000u64 | (x & 0xf_ffff_ffff_ffff);
    lemma_mantissa_mod(x, k, mask, m);
    assert(r >> 63 == 1) by (bit_vector)
        requires
            1 <= k <= 52,
            x >> 63 == 1,
            1023 <= (x >> 52) & 0x7ff <= 1074,
            mask == (1u64 << k) - 1,
            fr == x & mask,
            fr != 0,
            r == x - fr + (1u64 << k),
    ;
    let pk: int = pow2(k as nat) as int;
    lemma_pow2_pos(k as nat);
    lemma_fundamental_div_mod(m as int, pk);
    let q: int = m as int / pk;
    let c: int = pow2((e - 1) as nat) as int;
    lemma_pow2_pos((e - 1) as nat);
    assert(((k as nat) + ((e - 1) as nat)) == 1074);
    lemma_pow2_adds(k as nat, (e - 1) as nat);
    lemma_pow2_pos(1074);
    // The new magnitude m - fr + 2^k either stays below 2^53, growing
    // only the fraction, or reaches exactly 2^53 and carries into the
    // exponent field.
    if (x & 0xf_ffff_ffff_ffff) + (1u64 << k) - fr < 0x10_0000_0000_0000 {
        assert((r >> 52) & 0x7ff == (x >> 52) & 0x7ff && r & 0xf_ffff_ffff_ffff == (x
            & 0xf_ffff_ffff_ffff) - fr + (1u64 << k)) by (bit_vector)
            requires
                1 <= k <= 52,
                x >> 63 == 1,
                1023 <= (x >> 52) & 0x7ff <= 1074,
                mask == (1u64 << k) - 1,
                fr == x & mask,
                fr != 0,
                r == x - fr + (1u64 << k),
                (x & 0xf_ffff_ffff_ffff) + (1u64 << k) - fr < 0x10_0000_0000_0000,
        ;
        assert(scaled_value(r) == -((m as int - fr as int + pk) * c));
    } else {
        assert((r >> 52) & 0x7ff == ((x >> 52) & 0x7ff) + 1 && r & 0xf_ffff_ffff_ffff == 0 && (x
            & 0xf_ffff_ffff_ffff) + (1u64 << k) - fr == 0x10_0000_0000_0000) by (bit_vector)
            requires
                1 <= k <= 52,
                x >> 63 == 1,
                1023 <= (x >> 52) & 0x7ff <= 1074,
                mask == (1u64 << k) - 1,
                fr == x & mask,
                fr != 0,
                r == x - fr + (1u64 << k),
                !((x & 0xf_ffff_ffff_ffff) + (1u64 << k) - fr < 0x10_0000_0000_0000),
        ;
        lemma_pow2_unfold(e as nat);
        assert(scaled_value(r) == -(0x10_0000_0000_0000 * (pow2(e as nat) as int)));
        assert(0x10_0000_0000_0000 * (pow2(e as nat) as int) == (m as int - fr as int + pk) * c)
            by (nonlinear_arith)
            requires
                pow2(e as nat) == 2 * pow2((e - 1) as nat),
                c == pow2((e - 1) as nat) as int,
                m as int - fr as int + pk == 0x20_0000_0000_0000,
        ;
    }
    // In both cases the new magnitude is one whole unit beyond the
    // truncation: q + 1 steps of 2^k at the scale of the exponent.
    assert((m as int - fr as int + pk) * c == (q + 1) * scale_unit()) by (nonlinear_arith)
        requires
            m as int == q * pk + fr as int,
            pk * c == scale_unit(),
    ;
    assert(-((q + 1) * scale_unit()) == (-(q + 1)) * scale_unit()) by (nonlinear_arith);
    assert(-((m as int) * c) == (-(q + 1)) * scale_unit() + (pk - fr as int) * c)
        by (nonlinear_arith)
        requires
            m as int == q * pk + fr as int,
            pk * c == scale_unit(),
    ;
    assert(0 <= (pk - fr as int) * c < scale_unit()) by (nonlinear_arith)
        requires
            0 < (fr as int) < pk,
            c > 0,
            pk * c == scale_unit(),
    ;
    lemma_scaled_floor_from_parts(scaled_value(x), -(q + 1), (pk - fr as int) * c);
}

/// Rounds a binary64 pattern toward minus infinity. NaN and infinity
/// patterns pass through unchanged.
pub fn floor_bits(x: u64) -> (r: u64)
    ensures
        is_finite_bits(x) ==> rounds_down_to(x, r),
        !is_finite_bits(x) ==> r == x,
{
    let e_field: u64 = (x >> 52) & 0x7ff;
    proof {
        assert(x >> 63 == 0 || x >> 63 == 1) by (bit_vector);
    }
    if e_field >= 1075 {
        proof {
            if is_finite_bits(x) {
                lemma_floor_large(x);
            }
        }
        return x;
    }
    if e_field <= 1022 {
        if x >> 63 == 0 {
            proof {
                lemma_floor_small_pos(x);
            }
            return 0;
        }
        if x == 0x8000_0000_0000_0000 {
            proof {
                lemma_floor_neg_zero(x);
            }
            return x;
        }
        proof {
            lemma_floor_small_neg(x);
        }
        return 0xbff0_0000_0000_0000;
    }
    let k: u64 = 1075 - e_field;
    proof {
        assert(1u64 << k >= 1) by (bit_vector)
            requires
                1 <= k <= 52,
        ;
    }
    let mask: u64 = (1u64 << k) - 1;
    let fr: u64 = x & mask;
    if fr == 0 {
        proof {
            lemma_floor_integral(x, k, mask);
        }
        return x;
    }
    proof {
        assert(fr <= x && x - fr + (1u64 << k) <= 0xffff_ffff_ffff_ffff) by (bit_vector)
            requires
                1 <= k <= 52,
                (x >> 52) & 0x7ff <= 1074,
                mask == (1u64 << k) - 1,
                fr == x & mask,
        ;
    }
    if x >> 63 == 0 {
        let r: u64 = x - fr;
        proof {
            lemma_floor_truncate_pos(x, k, mask, fr, r);
        }
        r
    } else {
        let r: u64 = x - fr + (1u64 << k);
        proof {
            lemma_floor_truncate_neg(x, k, mask, fr, r);
        }
        r
    }
}

/// Flipping the sign bit of a pattern negates its scaled value and
/// changes nothing else.
proof fn lemma_negate_bits(p: u64)
    ensures
        exponent_bits(p ^ 0x8000_0000_0000_0000) == exponent_bits(p),
        fraction_bits(p ^ 0x8000_0000_0000_0000) == fraction_bits(p),
        sign_bit(p ^ 0x8000_0000_0000_0000) == !sign_bit(p),
        is_finite_bits(p ^ 0x8000_0000_0000_0000) == is_finite_bits(p),
        scaled_value(p ^ 0x8000_0000_0000_0000) == -scaled_value(p),
        (p ^ 0x8000_0000_0000_0000) ^ 0x8000_0000_0000_0000 == p,
{
    assert(((p ^ 0x8000_0000_0000_0000u64) >> 52) & 0x7ff == (p >> 52) & 0x7ff && (p
        ^ 0x8000_0000_0000_0000u64) & 0xf_ffff_ffff_ffff == p & 0xf_ffff_ffff_ffff && ((p
        ^ 0x8000_0000_0000_0000u64) >> 63 == 1 <==> !(p >> 63 == 1)) && (p
        ^ 0x8000_0000_0000_0000u64) ^ 0x8000_0000_0000_0000u64 == p) by (bit_vector);
}

/// Rounds a binary64 pattern toward plus infinity, as the negated
/// floor of the negated value. NaN and infinity patterns pass through
/// unchanged.
pub fn ceil_bits(x: u64) -> (r: u64)
    ensures
        is_finite_bits(x) ==> rounds_up_to(x, r),
        !is_finite_bits(x) ==> r == x,
{
    proof {
        lemma_negate_bits(x);
    }
    let flipped: u64 = x ^ 0x8000_0000_0000_0000;
    let rf: u64 = floor_bits(flipped);
    proof {
        lemma_negate_bits(rf);
    }
    rf ^ 0x8000_0000_0000_0000
}

} // verus!
