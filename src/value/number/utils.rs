//! Helpers for numeric conversions.

use super::float_bits::{
    bit_len, f32_round_scaled, lemma_bit_len, lemma_round_keeps_leading_bit, lemma_round_scale,
    round_half_even, round_significand, round_to_precision, f32_biased_exponent, f32_fraction, f32_significand, f64_exponent, f64_significand, f32_holds_scaled, f32_scaled_magnitude, f64_scaled_magnitude, lemma_above_f32_range,
    lemma_below_f32_range, lemma_divides_after_cancel, dyadic_integer, f32_integer_value, f32_is_finite, f32_sign_negative, f64_fields,
    f64_integer_magnitude, f64_integer_value, f64_is_finite, f64_sign_negative,
    f64_truncated_magnitude, fits_precision, lemma_large_bounds, lemma_pow2_le, lemma_small_normal,
    lemma_subnormal_magnitude, normalize, pow2_u128, pow2_u64, two_pow_64,
};
use vstd::arithmetic::div_mod::{
    lemma_div_is_ordered, lemma_fundamental_div_mod, lemma_fundamental_div_mod_converse,
};
use vstd::arithmetic::mul::lemma_mul_is_associative;
use vstd::arithmetic::power2::{
    lemma2_to64, lemma2_to64_rest, lemma_pow2_adds, lemma_pow2_pos, lemma_pow2_strictly_increases,
    lemma_pow2_unfold, pow2,
};
use vstd::prelude::*;

verus! {

/// Integer types that give a value for an infinity: the bound on its side.
pub trait FromInf: Sized {
    /// The value for negative infinity.
    spec fn spec_from_neg_inf() -> Self;

    /// The value for positive infinity.
    spec fn spec_from_pos_inf() -> Self;

    /// The value for negative infinity.
    fn from_neg_inf() -> (r: Self)
        ensures
            r == Self::spec_from_neg_inf(),
    ;

    /// The value for positive infinity.
    fn from_pos_inf() -> (r: Self)
        ensures
            r == Self::spec_from_pos_inf(),
    ;
}

/// Creates a value of type `T` from an infinity of the given sign.
pub fn from_inf<T: FromInf>(negative: bool) -> (r: T)
    ensures
        r == (if negative {
            T::spec_from_neg_inf()
        } else {
            T::spec_from_pos_inf()
        }),
{
    if negative {
        T::from_neg_inf()
    } else {
        T::from_pos_inf()
    }
}

impl FromInf for i8 {
    open spec fn spec_from_neg_inf() -> i8 {
        i8::MIN
    }

    open spec fn spec_from_pos_inf() -> i8 {
        i8::MAX
    }

    fn from_neg_inf() -> (r: i8) {
        i8::MIN
    }

    fn from_pos_inf() -> (r: i8) {
        i8::MAX
    }
}

impl FromInf for i16 {
    open spec fn spec_from_neg_inf() -> i16 {
        i16::MIN
    }

    open spec fn spec_from_pos_inf() -> i16 {
        i16::MAX
    }

    fn from_neg_inf() -> (r: i16) {
        i16::MIN
    }

    fn from_pos_inf() -> (r: i16) {
        i16::MAX
    }
}

impl FromInf for i32 {
    open spec fn spec_from_neg_inf() -> i32 {
        i32::MIN
    }

    open spec fn spec_from_pos_inf() -> i32 {
        i32::MAX
    }

    fn from_neg_inf() -> (r: i32) {
        i32::MIN
    }

    fn from_pos_inf() -> (r: i32) {
        i32::MAX
    }
}

impl FromInf for i64 {
    open spec fn spec_from_neg_inf() -> i64 {
        i64::MIN
    }

    open spec fn spec_from_pos_inf() -> i64 {
        i64::MAX
    }

    fn from_neg_inf() -> (r: i64) {
        i64::MIN
    }

    fn from_pos_inf() -> (r: i64) {
        i64::MAX
    }
}

impl FromInf for isize {
    open spec fn spec_from_neg_inf() -> isize {
        isize::MIN
    }

    open spec fn spec_from_pos_inf() -> isize {
        isize::MAX
    }

    fn from_neg_inf() -> (r: isize) {
        isize::MIN
    }

    fn from_pos_inf() -> (r: isize) {
        isize::MAX
    }
}

impl FromInf for i128 {
    open spec fn spec_from_neg_inf() -> i128 {
        i128::MIN
    }

    open spec fn spec_from_pos_inf() -> i128 {
        i128::MAX
    }

    fn from_neg_inf() -> (r: i128) {
        i128::MIN
    }

    fn from_pos_inf() -> (r: i128) {
        i128::MAX
    }
}

impl FromInf for u8 {
    open spec fn spec_from_neg_inf() -> u8 {
        u8::MIN
    }

    open spec fn spec_from_pos_inf() -> u8 {
        u8::MAX
    }

    fn from_neg_inf() -> (r: u8) {
        u8::MIN
    }

    fn from_pos_inf() -> (r: u8) {
        u8::MAX
    }
}

impl FromInf for u16 {
    open spec fn spec_from_neg_inf() -> u16 {
        u16::MIN
    }

    open spec fn spec_from_pos_inf() -> u16 {
        u16::MAX
    }

    fn from_neg_inf() -> (r: u16) {
        u16::MIN
    }

    fn from_pos_inf() -> (r: u16) {
        u16::MAX
    }
}

impl FromInf for u32 {
    open spec fn spec_from_neg_inf() -> u32 {
        u32::MIN
    }

    open spec fn spec_from_pos_inf() -> u32 {
        u32::MAX
    }

    fn from_neg_inf() -> (r: u32) {
        u32::MIN
    }

    fn from_pos_inf() -> (r: u32) {
        u32::MAX
    }
}

impl FromInf for u64 {
    open spec fn spec_from_neg_inf() -> u64 {
        u64::MIN
    }

    open spec fn spec_from_pos_inf() -> u64 {
        u64::MAX
    }

    fn from_neg_inf() -> (r: u64) {
        u64::MIN
    }

    fn from_pos_inf() -> (r: u64) {
        u64::MAX
    }
}

impl FromInf for usize {
    open spec fn spec_from_neg_inf() -> usize {
        usize::MIN
    }

    open spec fn spec_from_pos_inf() -> usize {
        usize::MAX
    }

    fn from_neg_inf() -> (r: usize) {
        usize::MIN
    }

    fn from_pos_inf() -> (r: usize) {
        usize::MAX
    }
}

impl FromInf for u128 {
    open spec fn spec_from_neg_inf() -> u128 {
        u128::MIN
    }

    open spec fn spec_from_pos_inf() -> u128 {
        u128::MAX
    }

    fn from_neg_inf() -> (r: u128) {
        u128::MIN
    }

    fn from_pos_inf() -> (r: u128) {
        u128::MAX
    }
}

/// Sign-extends a negative 65-bit integer stored in the low 64 bits to i128.
pub fn neg_i65_to_i128(repr: u64) -> (r: i128)
    ensures
        r == repr - 0x1_0000_0000_0000_0000,
{
    repr as i128 - 0x1_0000_0000_0000_0000i128
}

/// Converts a pattern to the `u64` equal to its magnitude, when the magnitude
/// is a whole number below 2^64. The sign bit is ignored.
pub fn f64_to_u64_no_sig_lossless(bits: u64) -> (r: Option<u64>)
    ensures
        r == (match f64_integer_magnitude(bits) {
            Some(m) => if m < two_pow_64() {
                Some(m as u64)
            } else {
                None
            },
            None => None,
        }),
{
    let (_, biased, fraction) = f64_fields(bits);
    if biased == 0 {
        proof {
            lemma_subnormal_magnitude(bits);
        }
        if fraction == 0 {
            Some(0)
        } else {
            None
        }
    } else {
        let sig = fraction + 0x10_0000_0000_0000;
        if biased >= 1075 {
            let shift = biased - 1075;
            proof {
                lemma_large_bounds(bits, shift as nat);
                lemma2_to64_rest();
            }
            if shift >= 12 {
                proof {
                    lemma_pow2_le(64, (52 + shift) as nat);
                }
                None
            } else {
                let p = pow2_u64(shift);
                proof {
                    if shift < 11 {
                        lemma_pow2_strictly_increases((53 + shift) as nat, 64);
                    }
                }
                Some(sig * p)
            }
        } else {
            let shift = 1075 - biased;
            if shift >= 64 {
                proof {
                    lemma_small_normal(bits, shift as nat);
                }
                None
            } else {
                let p = pow2_u64(shift);
                proof {
                    lemma_pow2_pos(shift as nat);
                    lemma_div_is_ordered(sig as int, u64::MAX as int, p as int);
                }
                if sig % p == 0 {
                    Some(sig / p)
                } else {
                    None
                }
            }
        }
    }
}

/// Converts a pattern to the `u128` equal to its magnitude, when the
/// magnitude is a whole number below 2^128. The sign bit is ignored.
pub fn f64_to_u128_no_sig_lossless(bits: u64) -> (r: Option<u128>)
    ensures
        r == (match f64_integer_magnitude(bits) {
            Some(m) => if m <= u128::MAX {
                Some(m as u128)
            } else {
                None
            },
            None => None,
        }),
{
    let (_, biased, fraction) = f64_fields(bits);
    if biased == 0 {
        proof {
            lemma_subnormal_magnitude(bits);
        }
        if fraction == 0 {
            Some(0)
        } else {
            None
        }
    } else {
        let sig = fraction + 0x10_0000_0000_0000;
        if biased >= 1075 {
            let shift = biased - 1075;
            proof {
                lemma_large_bounds(bits, shift as nat);
                lemma2_to64();
                lemma2_to64_rest();
                lemma_pow2_adds(64, 64);
            }
            if shift >= 76 {
                proof {
                    lemma_pow2_le(128, (52 + shift) as nat);
                }
                None
            } else {
                let p = pow2_u128(shift);
                proof {
                    if shift < 75 {
                        lemma_pow2_strictly_increases((53 + shift) as nat, 128);
                    }
                }
                Some(sig as u128 * p)
            }
        } else {
            let shift = 1075 - biased;
            if shift >= 64 {
                proof {
                    lemma_small_normal(bits, shift as nat);
                }
                None
            } else {
                let p = pow2_u64(shift);
                proof {
                    lemma_pow2_pos(shift as nat);
                    lemma_div_is_ordered(sig as int, u64::MAX as int, p as int);
                }
                if sig % p == 0 {
                    Some((sig / p) as u128)
                } else {
                    None
                }
            }
        }
    }
}

/// The magnitude of a pattern with its fractional part dropped, saturated at
/// `u128::MAX`.
pub fn f64_truncated_magnitude_saturating(bits: u64) -> (r: u128)
    ensures
        r == (if f64_truncated_magnitude(bits) <= u128::MAX {
            f64_truncated_magnitude(bits)
        } else {
            u128::MAX as nat
        }),
{
    let (_, biased, fraction) = f64_fields(bits);
    if biased == 0 {
        proof {
            lemma_subnormal_magnitude(bits);
        }
        0
    } else {
        let sig = fraction + 0x10_0000_0000_0000;
        if biased >= 1075 {
            let shift = biased - 1075;
            proof {
                lemma_large_bounds(bits, shift as nat);
                lemma2_to64();
                lemma2_to64_rest();
                lemma_pow2_adds(64, 64);
            }
            if shift >= 76 {
                proof {
                    lemma_pow2_le(128, (52 + shift) as nat);
                }
                u128::MAX
            } else {
                let p = pow2_u128(shift);
                proof {
                    if shift < 75 {
                        lemma_pow2_strictly_increases((53 + shift) as nat, 128);
                    }
                }
                sig as u128 * p
            }
        } else {
            let shift = 1075 - biased;
            if shift >= 64 {
                proof {
                    lemma_small_normal(bits, shift as nat);
                }
                0
            } else {
                let p = pow2_u64(shift);
                proof {
                    lemma_pow2_pos(shift as nat);
                    lemma_div_is_ordered(sig as int, u64::MAX as int, p as int);
                }
                (sig / p) as u128
            }
        }
    }
}

/// The binary64 pattern of the float equal to `n`, when one exists (when
/// `n` has at most 53 significant bits).
pub fn u64_to_f64_lossless(n: u64) -> (r: Option<u64>)
    ensures
        r is Some == fits_precision(n as nat, 53),
        r is Some ==> f64_is_finite(r.unwrap()) && !f64_sign_negative(r.unwrap())
            && f64_integer_value(r.unwrap()) == Some(n as int),
{
    proof {
        lemma2_to64();
        lemma2_to64_rest();
    }
    if n == 0 {
        proof {
            lemma_subnormal_magnitude(0);
            assert((0nat % pow2(0)) == 0 && 0nat / pow2(0) < pow2(53));
        }
        return Some(0);
    }
    match normalize(n, 53) {
        None => None,
        Some((sig, l)) => {
            let biased = l + 1022;
            let bits = biased * 0x10_0000_0000_0000 + (sig - 0x10_0000_0000_0000);
            proof {
                lemma_fundamental_div_mod_converse(
                    bits as int,
                    0x10_0000_0000_0000,
                    biased as int,
                    (sig - 0x10_0000_0000_0000) as int,
                );
            }
            Some(bits)
        },
    }
}

/// The binary32 pattern of the float equal to `n`, when one exists (when
/// `n` has at most 24 significant bits).
pub fn u64_to_f32_lossless(n: u64) -> (r: Option<u32>)
    ensures
        r is Some == fits_precision(n as nat, 24),
        r is Some ==> f32_is_finite(r.unwrap()) && !f32_sign_negative(r.unwrap())
            && f32_integer_value(r.unwrap()) == Some(n as int),
{
    proof {
        lemma2_to64();
    }
    if n == 0 {
        proof {
            vstd::arithmetic::power2::lemma_pow2_pos(149);
            assert((0nat % pow2(0)) == 0 && 0nat / pow2(0) < pow2(24));
            assert(dyadic_integer(0, -149) == Some(0nat));
        }
        return Some(0);
    }
    match normalize(n, 24) {
        None => None,
        Some((sig, l)) => {
            let biased = (l + 126) as u32;
            let bits = biased * 0x80_0000 + (sig - 0x80_0000) as u32;
            proof {
                lemma_fundamental_div_mod_converse(
                    bits as int,
                    0x80_0000,
                    biased as int,
                    (sig - 0x80_0000) as int,
                );
            }
            Some(bits)
        },
    }
}

/// The binary32 pattern of the float equal to the binary64 value `bits`,
/// sign included, when one exists.
pub fn f64_to_f32_lossless(bits: u64) -> (r: Option<u32>)
    ensures
        r is Some == f32_holds_scaled(f64_scaled_magnitude(bits)),
        r is Some ==> f32_is_finite(r.unwrap()) && f32_sign_negative(r.unwrap())
            == f64_sign_negative(bits) && f32_scaled_magnitude(r.unwrap()) == f64_scaled_magnitude(
            bits,
        ),
{
    let (negative, biased, fraction) = f64_fields(bits);
    let sign: u32 = if negative {
        0x8000_0000
    } else {
        0
    };
    proof {
        lemma2_to64();
        lemma2_to64_rest();
        lemma_pow2_pos(925);
        lemma_pow2_pos(1074);
    }
    if biased == 0 {
        proof {
            assert(f64_exponent(bits) == -1074);
            assert(f64_significand(bits) == fraction);
            assert(((f64_exponent(bits) + 1074) as nat) == 0);
            assert(f64_scaled_magnitude(bits) == fraction * pow2(0));
            assert(f64_scaled_magnitude(bits) == fraction);
        }
        if fraction == 0 {
            proof {
                lemma_fundamental_div_mod_converse(sign as int, 0x80_0000, (sign / 0x80_0000) as int, 0);
                assert(f64_scaled_magnitude(bits) == 0);
                assert(f32_biased_exponent(sign) == 0 && f32_fraction(sign) == 0);
                assert(f32_significand(sign) == 0);
                assert(f32_scaled_magnitude(sign) == 0);
            }
            return Some(sign);
        }
        proof {
            lemma_pow2_strictly_increases(52, 925);
            lemma_below_f32_range(fraction as nat);
        }
        return None;
    }
    let sig = fraction + 0x10_0000_0000_0000;
    let e = biased - 1;
    let ghost v = f64_scaled_magnitude(bits);
    proof {
        assert(v == sig * pow2(e as nat));
        lemma_pow2_pos(e as nat);
        assert(v > 0) by (nonlinear_arith)
            requires
                v == sig * pow2(e as nat),
                sig > 0,
                pow2(e as nat) > 0,
        ;
    }
    if e >= 1150 {
        proof {
            lemma_pow2_adds(52, e as nat);
            lemma_pow2_le(1202, (52 + e) as nat);
            lemma_pow2_pos(e as nat);
            vstd::arithmetic::mul::lemma_mul_inequality(pow2(52) as int, sig as int, pow2(e as nat) as int);
            lemma_above_f32_range(v);
        }
        return None;
    }
    if e >= 896 {
        if fraction % 0x2000_0000 != 0 {
            proof {
                if f32_holds_scaled(v) {
                    let (m, q) = choose|m: nat, q: nat|
                        925 <= q <= 1178 && m < 0x100_0000 && #[trigger] (m * pow2(q)) == v;
                    assert(925 <= q <= 1178 && m < 0x100_0000 && m * pow2(q) == v);
                    if q >= e + 29 {
                        lemma_divides_after_cancel(m, q, sig as nat, e as nat, 29);
                        assert(fraction % 0x2000_0000 == 0) by (nonlinear_arith)
                            requires
                                (fraction + 0x10_0000_0000_0000) % 0x2000_0000 == 0,
                        ;
                    } else {
                        lemma_pow2_adds(24, q);
                        lemma_pow2_adds(52, e as nat);
                        lemma_pow2_le((24 + q) as nat, (52 + e) as nat);
                        lemma_pow2_pos(q);
                        lemma_pow2_pos(e as nat);
                        assert(m * pow2(q) < pow2(24) * pow2(q)) by (nonlinear_arith)
                            requires
                                m < pow2(24),
                                pow2(q) > 0,
                        ;
                        vstd::arithmetic::mul::lemma_mul_inequality(pow2(52) as int, sig as int, pow2(e as nat) as int);
                    }
                }
            }
            return None;
        }
        let biased32 = (biased - 896) as u32;
        let fraction32 = (fraction / 0x2000_0000) as u32;
        let r = sign + biased32 * 0x80_0000 + fraction32;
        proof {
            let s = sign / 0x8000_0000;
            lemma_fundamental_div_mod_converse(
                r as int,
                0x80_0000,
                (s * 0x100 + biased32) as int,
                fraction32 as int,
            );
            lemma_fundamental_div_mod_converse(
                (s * 0x100 + biased32) as int,
                0x100,
                s as int,
                biased32 as int,
            );
            lemma_fundamental_div_mod(fraction as int, 0x2000_0000);
            let q = (biased + 28) as nat;
            lemma_pow2_adds(29, e as nat);
            lemma_mul_is_associative((fraction32 + 0x80_0000) as int, pow2(29) as int, pow2(e as nat) as int);
            assert(sig == (fraction32 + 0x80_0000) * pow2(29));
            assert(f32_scaled_magnitude(r) == (fraction32 + 0x80_0000) * pow2(q));
            assert(v == (fraction32 + 0x80_0000) * pow2(q));
            assert(f32_holds_scaled(v)) by {
                assert(((fraction32 + 0x80_0000) as nat * pow2(q)) == v);
            }
        }
        return Some(r);
    }
    let shift = 925 - e;
    if shift >= 64 {
        proof {
            if f32_holds_scaled(v) {
                let (m, q) = choose|m: nat, q: nat|
                    925 <= q <= 1178 && m < 0x100_0000 && #[trigger] (m * pow2(q)) == v;
                assert(925 <= q <= 1178 && m < 0x100_0000 && m * pow2(q) == v);
                lemma_divides_after_cancel(m, q, sig as nat, e as nat, 64);
                assert(sig < pow2(64));
                lemma_small_mod_nat(sig as nat, pow2(64));
            }
        }
        return None;
    }
    let p = pow2_u64(shift);
    if sig % p != 0 {
        proof {
            if f32_holds_scaled(v) {
                let (m, q) = choose|m: nat, q: nat|
                    925 <= q <= 1178 && m < 0x100_0000 && #[trigger] (m * pow2(q)) == v;
                assert(925 <= q <= 1178 && m < 0x100_0000 && m * pow2(q) == v);
                lemma_divides_after_cancel(m, q, sig as nat, e as nat, shift as nat);
            }
        }
        return None;
    }
    let m = sig / p;
    proof {
        lemma_pow2_pos(shift as nat);
        lemma_pow2_le(30, shift as nat);
        lemma_fundamental_div_mod(sig as int, p as int);
        assert(m < 0x80_0000) by (nonlinear_arith)
            requires
                sig == p * m,
                sig < 0x20_0000_0000_0000,
                p >= 0x4000_0000,
        ;
        lemma_fundamental_div_mod_converse(
            (sign + m as u32) as int,
            0x80_0000,
            (sign / 0x80_0000) as int,
            m as int,
        );
        lemma_pow2_adds(shift as nat, e as nat);
        assert(sig == m * p) by (nonlinear_arith)
            requires
                sig == p * m,
        ;
        lemma_mul_is_associative(m as int, p as int, pow2(e as nat) as int);
        assert(v == m * pow2(925));
        assert(f32_holds_scaled(v)) by {
            assert((m as nat * pow2(925)) == v);
        }
    }
    Some(sign + m as u32)
}

/// The binary64 pattern of `n` rounded to the nearest binary64 value,
/// ties to even, as the cast `n as f64` gives.
pub fn u64_to_f64_rounded(n: u64) -> (r: u64)
    ensures
        f64_is_finite(r),
        !f64_sign_negative(r),
        f64_integer_value(r) == Some(round_to_precision(n as nat, 53) as int),
{
    proof {
        lemma2_to64();
        lemma2_to64_rest();
    }
    if n == 0 {
        proof {
            lemma_subnormal_magnitude(0);
        }
        return 0;
    }
    let (sig, e) = round_significand(n, 53);
    let biased = (e + 1075) as u64;
    let bits = biased * 0x10_0000_0000_0000 + (sig - 0x10_0000_0000_0000);
    proof {
        lemma_fundamental_div_mod_converse(
            bits as int,
            0x10_0000_0000_0000,
            biased as int,
            (sig - 0x10_0000_0000_0000) as int,
        );
    }
    bits
}

/// The binary32 pattern of `n` rounded to the nearest binary32 value,
/// ties to even, as the cast `n as f32` gives.
pub fn u64_to_f32_rounded(n: u64) -> (r: u32)
    ensures
        f32_is_finite(r),
        !f32_sign_negative(r),
        f32_integer_value(r) == Some(round_to_precision(n as nat, 24) as int),
{
    proof {
        lemma2_to64();
    }
    if n == 0 {
        proof {
            lemma_pow2_pos(149);
            assert(dyadic_integer(0, -149) == Some(0nat));
        }
        return 0;
    }
    let (sig, e) = round_significand(n, 24);
    let biased = (e + 150) as u32;
    let bits = biased * 0x80_0000 + (sig - 0x80_0000) as u32;
    proof {
        lemma_fundamental_div_mod_converse(bits as int, 0x80_0000, biased as int, (sig - 0x80_0000) as int);
    }
    bits
}

/// The binary32 pattern of the binary64 value `bits` rounded to the
/// nearest binary32 value, ties to even, as the cast `x as f32` gives:
/// magnitudes beyond the binary32 range become infinities of the same sign.
pub fn f64_to_f32_rounded(bits: u64) -> (r: u32)
    ensures
        match f32_round_scaled(f64_scaled_magnitude(bits)) {
            Some(v) => f32_is_finite(r) && f32_sign_negative(r) == f64_sign_negative(bits)
                && f32_scaled_magnitude(r) == v,
            None => r == (if f64_sign_negative(bits) {
                0xff80_0000u32
            } else {
                0x7f80_0000u32
            }),
        },
{
    let (negative, biased, fraction) = f64_fields(bits);
    let sign: u32 = if negative {
        0x8000_0000
    } else {
        0
    };
    let ghost v = f64_scaled_magnitude(bits);
    proof {
        lemma2_to64();
        lemma2_to64_rest();
        lemma_pow2_pos(925);
        lemma_pow2_pos(1202);
        lemma_fundamental_div_mod_converse(sign as int, 0x80_0000, (sign / 0x80_0000) as int, 0);
        assert(f32_biased_exponent(sign) == 0 && f32_fraction(sign) == 0);
        assert(f32_significand(sign) == 0);
        assert(f32_scaled_magnitude(sign) == 0);
    }
    if biased == 0 {
        proof {
            assert(f64_exponent(bits) == -1074);
            assert(((f64_exponent(bits) + 1074) as nat) == 0);
            assert(v == fraction * pow2(0));
            lemma_pow2_strictly_increases(52, 924);
            lemma_pow2_le(52, 949);
            if fraction == 0 {
                lemma_bit_len(0, 0);
            } else {
                let l = bit_len(fraction as nat);
                lemma_bit_len_bound(fraction as nat, 52);
            }
            lemma_pow2_unfold(925);
            vstd::arithmetic::div_mod::lemma_small_mod(fraction as nat, pow2(925));
            assert((fraction as nat) / pow2(925) == 0) by (nonlinear_arith)
                requires
                    (fraction as nat) < pow2(925),
            ;
            assert(round_half_even(v, 925) == 0);
        }
        return sign;
    }
    let sig = fraction + 0x10_0000_0000_0000;
    let k = biased - 1;
    proof {
        assert(v == sig * pow2(k as nat));
        lemma_pow2_adds(52, k as nat);
        lemma_pow2_adds(53, k as nat);
        lemma_pow2_pos(k as nat);
        vstd::arithmetic::mul::lemma_mul_inequality(pow2(52) as int, sig as int, pow2(k as nat) as int);
        vstd::arithmetic::mul::lemma_mul_strict_inequality(sig as int, pow2(53) as int, pow2(k as nat) as int);
        lemma_bit_len(v, (53 + k) as nat);
    }
    if k >= 1150 {
        proof {
            lemma_round_keeps_leading_bit(v, (k + 29) as nat, (53 + k) as nat);
            lemma_pow2_le(1202, (52 + k) as nat);
        }
        return sign + 0x7f80_0000;
    }
    let s: u64 = if k > 896 {
        k + 29
    } else {
        925
    };
    let t = s - k;
    proof {
        lemma_round_scale(sig as nat, k as nat, t as nat);
        assert(sig * pow2(k as nat) == v);
    }
    if t >= 64 {
        proof {
            lemma_pow2_le(63, (t - 1) as nat);
            lemma_pow2_pos(t as nat);
            lemma_pow2_unfold(t as nat);
            vstd::arithmetic::div_mod::lemma_small_mod(sig as nat, pow2(t as nat));
            assert((sig as nat) / pow2(t as nat) == 0) by (nonlinear_arith)
                requires
                    (sig as nat) < pow2(t as nat),
            ;
            assert(round_half_even(sig as nat, t as nat) == 0);
        }
        return sign;
    }
    let m = pow2_u64(t);
    let half = pow2_u64(t - 1);
    let q = sig / m;
    let rem = sig % m;
    proof {
        lemma_pow2_pos(t as nat);
        lemma_pow2_unfold(t as nat);
        lemma_pow2_le(29, t as nat);
        lemma_div_is_ordered(sig as int, 0x1f_ffff_ffff_ffff, m as int);
        assert(0x1f_ffff_ffff_ffffnat / pow2(29) == 0xff_ffffnat);
        vstd::arithmetic::div_mod::lemma_div_is_ordered_by_denominator(0x1f_ffff_ffff_ffff, pow2(29) as int, m as int);
    }
    let up = rem > half || (rem == half && q % 2 == 1);
    let rounded = if up {
        q + 1
    } else {
        q
    };
    proof {
        assert(rounded == round_half_even(sig as nat, t as nat));
        assert(rounded <= 0x100_0000);
    }
    let (m2, s2) = if rounded == 0x100_0000 {
        proof {
            lemma_pow2_adds(23, (s + 1) as nat);
            lemma_pow2_adds(24, s as nat);
            assert(pow2(1) == 2);
            lemma_pow2_adds(1, s as nat);
        }
        (0x80_0000u64, s + 1)
    } else {
        (rounded, s)
    };
    proof {
        assert(m2 * pow2(s2 as nat) == rounded * pow2(s as nat));
        assert(f32_round_scaled(v) == (if m2 * pow2(s2 as nat) >= pow2(1202) {
            None
        } else {
            Some((m2 * pow2(s2 as nat)) as nat)
        }));
    }
    if m2 < 0x80_0000 {
        let r = sign + m2 as u32;
        proof {
            assert(s2 == 925);
            lemma_fundamental_div_mod_converse(r as int, 0x80_0000, (sign / 0x80_0000) as int, m2 as int);
            lemma_pow2_le(925, 1202);
            assert(m2 * pow2(925) < pow2(1202)) by {
                lemma_pow2_adds(23, 925);
                lemma_pow2_le(948, 1202);
                vstd::arithmetic::mul::lemma_mul_strict_inequality(m2 as int, pow2(23) as int, pow2(925) as int);
            }
        }
        return r;
    }
    if s2 >= 1179 {
        proof {
            lemma_pow2_adds(23, s2 as nat);
            lemma_pow2_le(1202, (23 + s2) as nat);
            vstd::arithmetic::mul::lemma_mul_inequality(pow2(23) as int, m2 as int, pow2(s2 as nat) as int);
        }
        return sign + 0x7f80_0000;
    }
    let biased32 = (s2 - 924) as u32;
    let fraction32 = (m2 - 0x80_0000) as u32;
    let r = sign + biased32 * 0x80_0000 + fraction32;
    proof {
        let sg = sign / 0x8000_0000;
        lemma_fundamental_div_mod_converse(
            r as int,
            0x80_0000,
            (sg * 0x100 + biased32) as int,
            fraction32 as int,
        );
        lemma_fundamental_div_mod_converse(
            (sg * 0x100 + biased32) as int,
            0x100,
            sg as int,
            biased32 as int,
        );
        lemma_pow2_adds(24, s2 as nat);
        lemma_pow2_le((24 + s2) as nat, 1202);
        vstd::arithmetic::mul::lemma_mul_strict_inequality(m2 as int, pow2(24) as int, pow2(s2 as nat) as int);
    }
    r
}

/// A number below `2^b` has at most `b` bits.
proof fn lemma_bit_len_bound(n: nat, b: nat)
    requires
        n < pow2(b),
    ensures
        bit_len(n) <= b,
    decreases b,
{
    lemma2_to64();
    reveal_with_fuel(bit_len, 2);
    if n > 0 {
        if b == 0 {
            assert(false);
        } else {
            lemma_pow2_unfold(b);
            lemma_bit_len_bound(n / 2, (b - 1) as nat);
        }
    }
}

/// `x % d == x` for `x < d`.
proof fn lemma_small_mod_nat(x: nat, d: nat)
    requires
        x < d,
    ensures
        x % d == x,
{
    vstd::arithmetic::div_mod::lemma_small_mod(x, d);
}

} // verus!
