//! The Twic [`Number`] type.

pub mod float_bits;
pub mod utils;

use float_bits::{
    f32_holds_scaled, f32_integer_value, f32_is_finite, f32_scaled_magnitude, f32_sign_negative,
    f64_fields, f64_integer_value, f64_is_finite, f64_is_nan, f64_is_zero, f64_scaled_magnitude,
    f64_sign_negative, f64_truncated_value, fits_precision, lemma_f32_set_sign, lemma_f64_set_sign,
    two_pow_64, f32_round_scaled, round_to_precision, round_half_even, bit_len, lemma_bit_len,
};
use utils::{
    f64_to_f32_rounded, u64_to_f32_rounded, u64_to_f64_rounded, f64_to_f32_lossless, f64_to_u128_no_sig_lossless, f64_to_u64_no_sig_lossless,
    f64_truncated_magnitude_saturating, from_inf, neg_i65_to_i128, u64_to_f32_lossless,
    u64_to_f64_lossless,
};
use vstd::arithmetic::power2::{lemma2_to64, pow2};
use vstd::prelude::*;
use vstd::std_specs::cmp::PartialEqSpec;

verus! {

/// A Twic number: an integer in `[-2^64, 2^64 - 1]`, a finite binary64
/// float, NaN, or an infinity.
///
/// Integers span one bit more than `i64` and `u64`: `PosInt(n)` is `n` and
/// `NegInt(n)` is `n - 2^64`, so `NegInt(u64::MAX)` is -1 and `NegInt(0)` is
/// -2^64. A float is held as its IEEE-754 binary64 bit pattern; NaN and the
/// infinities have variants of their own and are never held by `Float`
/// (see [`Number::wf`]).
///
/// Integers and floats are separate domains: `Number::from(1i64)` is not
/// equal to the float 1.0.
#[derive(Clone, Copy, Debug)]
pub enum Number {
    /// A non-negative integer in `[0, 2^64 - 1]`.
    PosInt(u64),
    /// A negative integer in `[-2^64, -1]`, stored with an offset of `2^64`.
    NegInt(u64),
    /// The bit pattern of a finite binary64 float (+0.0 and -0.0 included).
    Float(u64),
    /// Not a number. Unlike IEEE-754, NaN equals NaN here.
    NaN,
    /// Positive or negative infinity.
    Inf {
        /// The infinity is negative.
        negative: bool,
    },
}

/// The binary64 pattern of the quiet NaN.
pub const F64_NAN: u64 = 0x7ff8_0000_0000_0000;

/// The binary64 pattern of positive infinity.
pub const F64_INFINITY: u64 = 0x7ff0_0000_0000_0000;

/// The binary64 pattern of negative infinity.
pub const F64_NEG_INFINITY: u64 = 0xfff0_0000_0000_0000;

/// The binary32 pattern of the quiet NaN.
pub const F32_NAN: u32 = 0x7fc0_0000;

/// The binary32 pattern of positive infinity.
pub const F32_INFINITY: u32 = 0x7f80_0000;

/// The binary32 pattern of negative infinity.
pub const F32_NEG_INFINITY: u32 = 0xff80_0000;

/// `v` held inside `[lo, hi]`.
pub open spec fn clamp(v: int, lo: int, hi: int) -> int {
    if v < lo {
        lo
    } else if v > hi {
        hi
    } else {
        v
    }
}

impl Number {
    /// `Float` holds a finite pattern.
    pub open spec fn wf(self) -> bool {
        match self {
            Number::Float(bits) => float_bits::f64_is_finite(bits),
            _ => true,
        }
    }

    /// The number is one of the two integer variants.
    pub open spec fn spec_is_integer(self) -> bool {
        self is PosInt || self is NegInt
    }

    /// The integer denoted by an integer number (zero for the others).
    pub open spec fn int_value(self) -> int {
        match self {
            Number::PosInt(n) => n as int,
            Number::NegInt(n) => n - two_pow_64(),
            _ => 0,
        }
    }

    /// The integer number that denotes `v`, for `v` in `[-2^64, 2^64 - 1]`.
    pub open spec fn from_int(v: int) -> Number {
        if v >= 0 {
            Number::PosInt(v as u64)
        } else {
            Number::NegInt((v + two_pow_64()) as u64)
        }
    }

    /// The number is an integer within `[lo, hi]`.
    pub open spec fn int_fits(self, lo: int, hi: int) -> bool {
        self.spec_is_integer() && lo <= self.int_value() <= hi
    }

    /// The whole number that this number equals exactly: an integer, or a
    /// float without a fractional part. `None` for other floats, NaN and the
    /// infinities.
    pub open spec fn exact_int(self) -> Option<int> {
        match self {
            Number::PosInt(n) => Some(n as int),
            Number::NegInt(n) => Some(n - two_pow_64()),
            Number::Float(bits) => f64_integer_value(bits),
            _ => None,
        }
    }

    /// The number equals exactly a whole number within `[lo, hi]`.
    pub open spec fn exact_fits(self, lo: int, hi: int) -> bool {
        match self.exact_int() {
            Some(v) => lo <= v <= hi,
            None => false,
        }
    }

    /// What a saturating cast of a non-integer to a type with range
    /// `[lo, hi]` gives: a float is rounded toward zero and clamped, NaN
    /// gives zero, an infinity gives the bound on its side.
    pub open spec fn saturated(self, lo: int, hi: int) -> int {
        match self {
            Number::Float(bits) => clamp(f64_truncated_value(bits), lo, hi),
            Number::Inf { negative } => if negative {
                lo
            } else {
                hi
            },
            _ => 0,
        }
    }

    /// The number that a binary64 value with pattern `bits` denotes.
    pub open spec fn spec_from_f64_bits(bits: u64) -> Number {
        if f64_is_nan(bits) {
            Number::NaN
        } else if !float_bits::f64_is_finite(bits) {
            Number::Inf { negative: f64_sign_negative(bits) }
        } else {
            Number::Float(bits)
        }
    }

    /// The magnitude of an integer number.
    pub open spec fn int_magnitude(self) -> nat {
        if self.int_value() < 0 {
            (-self.int_value()) as nat
        } else {
            self.int_value() as nat
        }
    }

    /// The binary64 pattern that a float-domain number reads as: a float's
    /// own pattern, the quiet NaN, or an infinity.
    pub open spec fn f64_pattern(self) -> Option<u64> {
        match self {
            Number::Float(bits) => Some(bits),
            Number::NaN => Some(F64_NAN),
            Number::Inf { negative } => Some(if negative { F64_NEG_INFINITY } else { F64_INFINITY }),
            _ => None,
        }
    }

    /// A float-domain number whose value a binary32 holds without loss.
    pub open spec fn fits_in_f32_spec(self) -> bool {
        match self {
            Number::Float(bits) => f32_holds_scaled(f64_scaled_magnitude(bits)),
            Number::NaN | Number::Inf { .. } => true,
            _ => false,
        }
    }

    /// An integer number rounded to `p` significant bits, ties to even.
    pub open spec fn int_rounded(self, p: nat) -> int {
        if self.int_value() < 0 {
            -round_to_precision(self.int_magnitude(), p)
        } else {
            round_to_precision(self.int_magnitude(), p) as int
        }
    }

    /// Two numbers are equal as `==` compares them: NaN equals NaN, +0.0
    /// equals -0.0, and otherwise variant and payload agree.
    pub open spec fn numbers_equal(a: Number, b: Number) -> bool {
        match (a, b) {
            (Number::Float(x), Number::Float(y)) => x == y || (f64_is_zero(x) && f64_is_zero(y)),
            _ => a == b,
        }
    }

    /// The number is greater than zero.
    pub open spec fn spec_is_positive(self) -> bool {
        match self {
            Number::PosInt(n) => n > 0,
            Number::NegInt(_) => false,
            Number::Float(bits) => !f64_sign_negative(bits) && !f64_is_zero(bits),
            Number::NaN => false,
            Number::Inf { negative } => !negative,
        }
    }

    /// The number is less than zero.
    pub open spec fn spec_is_negative(self) -> bool {
        match self {
            Number::PosInt(_) => false,
            Number::NegInt(_) => true,
            Number::Float(bits) => f64_sign_negative(bits) && !f64_is_zero(bits),
            Number::NaN => false,
            Number::Inf { negative } => negative,
        }
    }

    /// The number is the integer zero, +0.0 or -0.0.
    pub open spec fn spec_is_zero(self) -> bool {
        match self {
            Number::PosInt(n) => n == 0,
            Number::Float(bits) => f64_is_zero(bits),
            _ => false,
        }
    }
}

/// Clamps the signed value `±magnitude` into `[-max - 1, max]`.
fn saturate_signed(negative: bool, magnitude: u128, max: u128) -> (r: i128)
    requires
        max < 0x8000_0000_0000_0000_0000_0000_0000_0000,
    ensures
        r == clamp(if negative { -magnitude } else { magnitude as int }, -max - 1, max as int),
{
    if negative {
        if magnitude > max {
            -(max as i128) - 1
        } else {
            -(magnitude as i128)
        }
    } else if magnitude > max {
        max as i128
    } else {
        magnitude as i128
    }
}

/// Clamps the signed value `±magnitude` into `[0, max]`.
fn saturate_unsigned(negative: bool, magnitude: u128, max: u128) -> (r: u128)
    ensures
        r == clamp(if negative { -magnitude } else { magnitude as int }, 0, max as int),
{
    if negative {
        0
    } else if magnitude > max {
        max
    } else {
        magnitude
    }
}

/// Basic checks.
impl Number {
    /// Checks if the number is an integer (either positive or negative).
    pub fn is_integer(&self) -> (r: bool)
        ensures
            r == self.spec_is_integer(),
    {
        matches!(self, Number::PosInt(_) | Number::NegInt(_))
    }

    /// Checks if the number is a float, excluding NaN and the infinities.
    pub fn is_float(&self) -> (r: bool)
        ensures
            r == self is Float,
    {
        matches!(self, Number::Float(_))
    }

    /// Checks if the number is NaN.
    pub fn is_nan(&self) -> (r: bool)
        ensures
            r == self is NaN,
    {
        matches!(self, Number::NaN)
    }

    /// Checks if the number is infinite (either positive or negative).
    pub fn is_infinite(&self) -> (r: bool)
        ensures
            r == self is Inf,
    {
        matches!(self, Number::Inf { .. })
    }

    /// Checks if the number is positive infinity.
    pub fn is_positive_infinite(&self) -> (r: bool)
        ensures
            r == (*self == Number::Inf { negative: false }),
    {
        matches!(self, Number::Inf { negative: false })
    }

    /// Checks if the number is negative infinity.
    pub fn is_negative_infinite(&self) -> (r: bool)
        ensures
            r == (*self == Number::Inf { negative: true }),
    {
        matches!(self, Number::Inf { negative: true })
    }

    /// Checks if the number is greater than zero: a positive integer, a
    /// positive float other than +0.0, or positive infinity.
    pub fn is_positive(&self) -> (r: bool)
        ensures
            r == self.spec_is_positive(),
    {
        match self {
            Number::PosInt(n) => *n > 0,
            Number::NegInt(_) => false,
            Number::Float(bits) => {
                let (negative, exponent, fraction) = f64_fields(*bits);
                !negative && !(exponent == 0 && fraction == 0)
            },
            Number::NaN => false,
            Number::Inf { negative } => !*negative,
        }
    }

    /// Checks if the number is less than zero: a negative integer, a
    /// negative float other than -0.0, or negative infinity.
    pub fn is_negative(&self) -> (r: bool)
        ensures
            r == self.spec_is_negative(),
    {
        match self {
            Number::PosInt(_) => false,
            Number::NegInt(_) => true,
            Number::Float(bits) => {
                let (negative, exponent, fraction) = f64_fields(*bits);
                negative && !(exponent == 0 && fraction == 0)
            },
            Number::NaN => false,
            Number::Inf { negative } => *negative,
        }
    }

    /// Checks if the number is zero: the integer 0, +0.0 or -0.0.
    pub fn is_zero(&self) -> (r: bool)
        ensures
            r == self.spec_is_zero(),
    {
        match self {
            Number::PosInt(n) => *n == 0,
            Number::NegInt(_) => false,
            Number::Float(bits) => {
                let (_, exponent, fraction) = f64_fields(*bits);
                exponent == 0 && fraction == 0
            },
            Number::NaN => false,
            Number::Inf { .. } => false,
        }
    }
}


/// Range checks.
impl Number {
    /// Checks if the number is an integer that a `i8` can hold.
    pub fn fits_in_i8(&self) -> (r: bool)
        ensures
            r == self.int_fits(i8::MIN as int, i8::MAX as int),
    {
        match self {
            Number::PosInt(n) => *n <= i8::MAX as u64,
            Number::NegInt(n) => neg_i65_to_i128(*n) >= i8::MIN as i128,
            _ => false,
        }
    }

    /// Checks if the number is an integer that a `i16` can hold.
    pub fn fits_in_i16(&self) -> (r: bool)
        ensures
            r == self.int_fits(i16::MIN as int, i16::MAX as int),
    {
        match self {
            Number::PosInt(n) => *n <= i16::MAX as u64,
            Number::NegInt(n) => neg_i65_to_i128(*n) >= i16::MIN as i128,
            _ => false,
        }
    }

    /// Checks if the number is an integer that a `i32` can hold.
    pub fn fits_in_i32(&self) -> (r: bool)
        ensures
            r == self.int_fits(i32::MIN as int, i32::MAX as int),
    {
        match self {
            Number::PosInt(n) => *n <= i32::MAX as u64,
            Number::NegInt(n) => neg_i65_to_i128(*n) >= i32::MIN as i128,
            _ => false,
        }
    }

    /// Checks if the number is an integer that a `i64` can hold.
    pub fn fits_in_i64(&self) -> (r: bool)
        ensures
            r == self.int_fits(i64::MIN as int, i64::MAX as int),
    {
        match self {
            Number::PosInt(n) => *n <= i64::MAX as u64,
            Number::NegInt(n) => neg_i65_to_i128(*n) >= i64::MIN as i128,
            _ => false,
        }
    }

    /// Checks if the number is an integer that a `isize` can hold.
    pub fn fits_in_isize(&self) -> (r: bool)
        ensures
            r == self.int_fits(isize::MIN as int, isize::MAX as int),
    {
        match self {
            Number::PosInt(n) => *n <= isize::MAX as u64,
            Number::NegInt(n) => neg_i65_to_i128(*n) >= isize::MIN as i128,
            _ => false,
        }
    }

    /// Checks if the number is an integer that a `i128` can hold.
    pub fn fits_in_i128(&self) -> (r: bool)
        ensures
            r == self.int_fits(i128::MIN as int, i128::MAX as int),
    {
        matches!(self, Number::PosInt(_) | Number::NegInt(_))
    }

    /// Checks if the number is an integer that a `u8` can hold.
    pub fn fits_in_u8(&self) -> (r: bool)
        ensures
            r == self.int_fits(u8::MIN as int, u8::MAX as int),
    {
        match self {
            Number::PosInt(n) => *n <= u8::MAX as u64,
            _ => false,
        }
    }

    /// Checks if the number is an integer that a `u16` can hold.
    pub fn fits_in_u16(&self) -> (r: bool)
        ensures
            r == self.int_fits(u16::MIN as int, u16::MAX as int),
    {
        match self {
            Number::PosInt(n) => *n <= u16::MAX as u64,
            _ => false,
        }
    }

    /// Checks if the number is an integer that a `u32` can hold.
    pub fn fits_in_u32(&self) -> (r: bool)
        ensures
            r == self.int_fits(u32::MIN as int, u32::MAX as int),
    {
        match self {
            Number::PosInt(n) => *n <= u32::MAX as u64,
            _ => false,
        }
    }

    /// Checks if the number is an integer that a `u64` can hold.
    pub fn fits_in_u64(&self) -> (r: bool)
        ensures
            r == self.int_fits(u64::MIN as int, u64::MAX as int),
    {
        matches!(self, Number::PosInt(_))
    }

    /// Checks if the number is an integer that a `usize` can hold.
    pub fn fits_in_usize(&self) -> (r: bool)
        ensures
            r == self.int_fits(usize::MIN as int, usize::MAX as int),
    {
        match self {
            Number::PosInt(n) => *n <= usize::MAX as u64,
            _ => false,
        }
    }

    /// Checks if the number is an integer that a `u128` can hold.
    pub fn fits_in_u128(&self) -> (r: bool)
        ensures
            r == self.int_fits(u128::MIN as int, u128::MAX as int),
    {
        matches!(self, Number::PosInt(_))
    }

}

/// Reads an integer number into an integer type that holds it.
impl Number {
    /// The number as a `i8`, if it is an integer that a `i8` can hold.
    /// Floats always give `None`.
    pub fn get_i8(&self) -> (r: Option<i8>)
        ensures
            r == (if self.int_fits(i8::MIN as int, i8::MAX as int) {
                Some(self.int_value() as i8)
            } else {
                None
            }),
    {
        match self {
            Number::PosInt(n) if *n <= i8::MAX as u64 => Some(*n as i8),
            Number::NegInt(n) if neg_i65_to_i128(*n) >= i8::MIN as i128 => Some(
                neg_i65_to_i128(*n) as i8,
            ),
            _ => None,
        }
    }

    /// The number as a `i16`, if it is an integer that a `i16` can hold.
    /// Floats always give `None`.
    pub fn get_i16(&self) -> (r: Option<i16>)
        ensures
            r == (if self.int_fits(i16::MIN as int, i16::MAX as int) {
                Some(self.int_value() as i16)
            } else {
                None
            }),
    {
        match self {
            Number::PosInt(n) if *n <= i16::MAX as u64 => Some(*n as i16),
            Number::NegInt(n) if neg_i65_to_i128(*n) >= i16::MIN as i128 => Some(
                neg_i65_to_i128(*n) as i16,
            ),
            _ => None,
        }
    }

    /// The number as a `i32`, if it is an integer that a `i32` can hold.
    /// Floats always give `None`.
    pub fn get_i32(&self) -> (r: Option<i32>)
        ensures
            r == (if self.int_fits(i32::MIN as int, i32::MAX as int) {
                Some(self.int_value() as i32)
            } else {
                None
            }),
    {
        match self {
            Number::PosInt(n) if *n <= i32::MAX as u64 => Some(*n as i32),
            Number::NegInt(n) if neg_i65_to_i128(*n) >= i32::MIN as i128 => Some(
                neg_i65_to_i128(*n) as i32,
            ),
            _ => None,
        }
    }

    /// The number as a `i64`, if it is an integer that a `i64` can hold.
    /// Floats always give `None`.
    pub fn get_i64(&self) -> (r: Option<i64>)
        ensures
            r == (if self.int_fits(i64::MIN as int, i64::MAX as int) {
                Some(self.int_value() as i64)
            } else {
                None
            }),
    {
        match self {
            Number::PosInt(n) if *n <= i64::MAX as u64 => Some(*n as i64),
            Number::NegInt(n) if neg_i65_to_i128(*n) >= i64::MIN as i128 => Some(
                neg_i65_to_i128(*n) as i64,
            ),
            _ => None,
        }
    }

    /// The number as a `isize`, if it is an integer that a `isize` can hold.
    /// Floats always give `None`.
    pub fn get_isize(&self) -> (r: Option<isize>)
        ensures
            r == (if self.int_fits(isize::MIN as int, isize::MAX as int) {
                Some(self.int_value() as isize)
            } else {
                None
            }),
    {
        match self {
            Number::PosInt(n) if *n <= isize::MAX as u64 => Some(*n as isize),
            Number::NegInt(n) if neg_i65_to_i128(*n) >= isize::MIN as i128 => Some(
                neg_i65_to_i128(*n) as isize,
            ),
            _ => None,
        }
    }

    /// The number as a `i128`, if it is an integer that a `i128` can hold.
    /// Floats always give `None`.
    pub fn get_i128(&self) -> (r: Option<i128>)
        ensures
            r == (if self.int_fits(i128::MIN as int, i128::MAX as int) {
                Some(self.int_value() as i128)
            } else {
                None
            }),
    {
        match self {
            Number::PosInt(n) => Some(*n as i128),
            Number::NegInt(n) => Some(neg_i65_to_i128(*n)),
            _ => None,
        }
    }

    /// The number as a `u8`, if it is an integer that a `u8` can hold.
    /// Floats always give `None`.
    pub fn get_u8(&self) -> (r: Option<u8>)
        ensures
            r == (if self.int_fits(u8::MIN as int, u8::MAX as int) {
                Some(self.int_value() as u8)
            } else {
                None
            }),
    {
        match self {
            Number::PosInt(n) if *n <= u8::MAX as u64 => Some(*n as u8),
            _ => None,
        }
    }

    /// The number as a `u16`, if it is an integer that a `u16` can hold.
    /// Floats always give `None`.
    pub fn get_u16(&self) -> (r: Option<u16>)
        ensures
            r == (if self.int_fits(u16::MIN as int, u16::MAX as int) {
                Some(self.int_value() as u16)
            } else {
                None
            }),
    {
        match self {
            Number::PosInt(n) if *n <= u16::MAX as u64 => Some(*n as u16),
            _ => None,
        }
    }

    /// The number as a `u32`, if it is an integer that a `u32` can hold.
    /// Floats always give `None`.
    pub fn get_u32(&self) -> (r: Option<u32>)
        ensures
            r == (if self.int_fits(u32::MIN as int, u32::MAX as int) {
                Some(self.int_value() as u32)
            } else {
                None
            }),
    {
        match self {
            Number::PosInt(n) if *n <= u32::MAX as u64 => Some(*n as u32),
            _ => None,
        }
    }

    /// The number as a `u64`, if it is an integer that a `u64` can hold.
    /// Floats always give `None`.
    pub fn get_u64(&self) -> (r: Option<u64>)
        ensures
            r == (if self.int_fits(u64::MIN as int, u64::MAX as int) {
                Some(self.int_value() as u64)
            } else {
                None
            }),
    {
        match self {
            Number::PosInt(n) => Some(*n),
            _ => None,
        }
    }

    /// The number as a `usize`, if it is an integer that a `usize` can hold.
    /// Floats always give `None`.
    pub fn get_usize(&self) -> (r: Option<usize>)
        ensures
            r == (if self.int_fits(usize::MIN as int, usize::MAX as int) {
                Some(self.int_value() as usize)
            } else {
                None
            }),
    {
        match self {
            Number::PosInt(n) if *n <= usize::MAX as u64 => Some(*n as usize),
            _ => None,
        }
    }

    /// The number as a `u128`, if it is an integer that a `u128` can hold.
    /// Floats always give `None`.
    pub fn get_u128(&self) -> (r: Option<u128>)
        ensures
            r == (if self.int_fits(u128::MIN as int, u128::MAX as int) {
                Some(self.int_value() as u128)
            } else {
                None
            }),
    {
        match self {
            Number::PosInt(n) => Some(*n as u128),
            _ => None,
        }
    }

}

/// Lossless conversions to integer types.
impl Number {
    /// The number as a `i8`, if it equals exactly a whole number that a
    /// `i8` can hold: an integer in range, or a float in range with no
    /// fractional part. NaN and the infinities give `None`.
    pub fn as_i8_exact(&self) -> (r: Option<i8>)
        ensures
            r == (if self.exact_fits(i8::MIN as int, i8::MAX as int) {
                Some(self.exact_int()->0 as i8)
            } else {
                None
            }),
    {
        match self {
            Number::PosInt(n) if *n <= i8::MAX as u64 => Some(*n as i8),
            Number::NegInt(n) if neg_i65_to_i128(*n) >= i8::MIN as i128 => Some(
                neg_i65_to_i128(*n) as i8,
            ),
            Number::Float(bits) => {
                let whole: u64 = match f64_to_u64_no_sig_lossless(*bits) {
                    Some(v) => v,
                    None => return None,
                };

                if *bits < 0x8000_0000_0000_0000 {
                    if whole <= i8::MAX as u64 {
                        Some(whole as i8)
                    } else {
                        None
                    }
                } else if whole as i128 <= -(i8::MIN as i128) {
                    Some((-(whole as i128)) as i8)
                } else {
                    None
                }
            },
            _ => None,
        }
    }

    /// The number as a `i16`, if it equals exactly a whole number that a
    /// `i16` can hold: an integer in range, or a float in range with no
    /// fractional part. NaN and the infinities give `None`.
    pub fn as_i16_exact(&self) -> (r: Option<i16>)
        ensures
            r == (if self.exact_fits(i16::MIN as int, i16::MAX as int) {
                Some(self.exact_int()->0 as i16)
            } else {
                None
            }),
    {
        match self {
            Number::PosInt(n) if *n <= i16::MAX as u64 => Some(*n as i16),
            Number::NegInt(n) if neg_i65_to_i128(*n) >= i16::MIN as i128 => Some(
                neg_i65_to_i128(*n) as i16,
            ),
            Number::Float(bits) => {
                let whole: u64 = match f64_to_u64_no_sig_lossless(*bits) {
                    Some(v) => v,
                    None => return None,
                };

                if *bits < 0x8000_0000_0000_0000 {
                    if whole <= i16::MAX as u64 {
                        Some(whole as i16)
                    } else {
                        None
                    }
                } else if whole as i128 <= -(i16::MIN as i128) {
                    Some((-(whole as i128)) as i16)
                } else {
                    None
                }
            },
            _ => None,
        }
    }

    /// The number as a `i32`, if it equals exactly a whole number that a
    /// `i32` can hold: an integer in range, or a float in range with no
    /// fractional part. NaN and the infinities give `None`.
    pub fn as_i32_exact(&self) -> (r: Option<i32>)
        ensures
            r == (if self.exact_fits(i32::MIN as int, i32::MAX as int) {
                Some(self.exact_int()->0 as i32)
            } else {
                None
            }),
    {
        match self {
            Number::PosInt(n) if *n <= i32::MAX as u64 => Some(*n as i32),
            Number::NegInt(n) if neg_i65_to_i128(*n) >= i32::MIN as i128 => Some(
                neg_i65_to_i128(*n) as i32,
            ),
            Number::Float(bits) => {
                let whole: u64 = match f64_to_u64_no_sig_lossless(*bits) {
                    Some(v) => v,
                    None => return None,
                };

                if *bits < 0x8000_0000_0000_0000 {
                    if whole <= i32::MAX as u64 {
                        Some(whole as i32)
                    } else {
                        None
                    }
                } else if whole as i128 <= -(i32::MIN as i128) {
                    Some((-(whole as i128)) as i32)
                } else {
                    None
                }
            },
            _ => None,
        }
    }

    /// The number as a `i64`, if it equals exactly a whole number that a
    /// `i64` can hold: an integer in range, or a float in range with no
    /// fractional part. NaN and the infinities give `None`.
    pub fn as_i64_exact(&self) -> (r: Option<i64>)
        ensures
            r == (if self.exact_fits(i64::MIN as int, i64::MAX as int) {
                Some(self.exact_int()->0 as i64)
            } else {
                None
            }),
    {
        match self {
            Number::PosInt(n) if *n <= i64::MAX as u64 => Some(*n as i64),
            Number::NegInt(n) if neg_i65_to_i128(*n) >= i64::MIN as i128 => Some(
                neg_i65_to_i128(*n) as i64,
            ),
            Number::Float(bits) => {
                let whole: u64 = match f64_to_u64_no_sig_lossless(*bits) {
                    Some(v) => v,
                    None => return None,
                };

                if *bits < 0x8000_0000_0000_0000 {
                    if whole <= i64::MAX as u64 {
                        Some(whole as i64)
                    } else {
                        None
                    }
                } else if whole as i128 <= -(i64::MIN as i128) {
                    Some((-(whole as i128)) as i64)
                } else {
                    None
                }
            },
            _ => None,
        }
    }

    /// The number as a `isize`, if it equals exactly a whole number that a
    /// `isize` can hold: an integer in range, or a float in range with no
    /// fractional part. NaN and the infinities give `None`.
    pub fn as_isize_exact(&self) -> (r: Option<isize>)
        ensures
            r == (if self.exact_fits(isize::MIN as int, isize::MAX as int) {
                Some(self.exact_int()->0 as isize)
            } else {
                None
            }),
    {
        match self {
            Number::PosInt(n) if *n <= isize::MAX as u64 => Some(*n as isize),
            Number::NegInt(n) if neg_i65_to_i128(*n) >= isize::MIN as i128 => Some(
                neg_i65_to_i128(*n) as isize,
            ),
            Number::Float(bits) => {
                let whole: u64 = match f64_to_u64_no_sig_lossless(*bits) {
                    Some(v) => v,
                    None => return None,
                };

                if *bits < 0x8000_0000_0000_0000 {
                    if whole <= isize::MAX as u64 {
                        Some(whole as isize)
                    } else {
                        None
                    }
                } else if whole as i128 <= -(isize::MIN as i128) {
                    Some((-(whole as i128)) as isize)
                } else {
                    None
                }
            },
            _ => None,
        }
    }

    /// The number as a `i128`, if it equals exactly a whole number that a
    /// `i128` can hold: an integer in range, or a float in range with no
    /// fractional part. NaN and the infinities give `None`.
    pub fn as_i128_exact(&self) -> (r: Option<i128>)
        ensures
            r == (if self.exact_fits(i128::MIN as int, i128::MAX as int) {
                Some(self.exact_int()->0 as i128)
            } else {
                None
            }),
    {
        match self {
            Number::PosInt(n) => Some(*n as i128),
            Number::NegInt(n) => Some(neg_i65_to_i128(*n)),
            Number::Float(bits) => {
                let whole: u128 = match f64_to_u128_no_sig_lossless(*bits) {
                    Some(v) => v,
                    None => return None,
                };

                if *bits < 0x8000_0000_0000_0000 {
                    if whole <= i128::MAX as u128 {
                        Some(whole as i128)
                    } else {
                        None
                    }
                } else if whole < 0x8000_0000_0000_0000_0000_0000_0000_0000 {
                    Some(-(whole as i128))
                } else if whole == 0x8000_0000_0000_0000_0000_0000_0000_0000 {
                    Some(i128::MIN)
                } else {
                    None
                }
            },
            _ => None,
        }
    }

    /// The number as a `u8`, if it equals exactly a whole number that a
    /// `u8` can hold: an integer in range, or a float in range with no
    /// fractional part. NaN and the infinities give `None`.
    pub fn as_u8_exact(&self) -> (r: Option<u8>)
        ensures
            r == (if self.exact_fits(u8::MIN as int, u8::MAX as int) {
                Some(self.exact_int()->0 as u8)
            } else {
                None
            }),
    {
        match self {
            Number::PosInt(n) if *n <= u8::MAX as u64 => Some(*n as u8),
            Number::Float(bits) => {
                let whole: u64 = match f64_to_u64_no_sig_lossless(*bits) {
                    Some(v) => v,
                    None => return None,
                };

                if *bits < 0x8000_0000_0000_0000 && whole <= u8::MAX as u64 {
                    Some(whole as u8)
                } else if whole == 0 {
                    Some(0)
                } else {
                    None
                }
            },
            _ => None,
        }
    }

    /// The number as a `u16`, if it equals exactly a whole number that a
    /// `u16` can hold: an integer in range, or a float in range with no
    /// fractional part. NaN and the infinities give `None`.
    pub fn as_u16_exact(&self) -> (r: Option<u16>)
        ensures
            r == (if self.exact_fits(u16::MIN as int, u16::MAX as int) {
                Some(self.exact_int()->0 as u16)
            } else {
                None
            }),
    {
        match self {
            Number::PosInt(n) if *n <= u16::MAX as u64 => Some(*n as u16),
            Number::Float(bits) => {
                let whole: u64 = match f64_to_u64_no_sig_lossless(*bits) {
                    Some(v) => v,
                    None => return None,
                };

                if *bits < 0x8000_0000_0000_0000 && whole <= u16::MAX as u64 {
                    Some(whole as u16)
                } else if whole == 0 {
                    Some(0)
                } else {
                    None
                }
            },
            _ => None,
        }
    }

    /// The number as a `u32`, if it equals exactly a whole number that a
    /// `u32` can hold: an integer in range, or a float in range with no
    /// fractional part. NaN and the infinities give `None`.
    pub fn as_u32_exact(&self) -> (r: Option<u32>)
        ensures
            r == (if self.exact_fits(u32::MIN as int, u32::MAX as int) {
                Some(self.exact_int()->0 as u32)
            } else {
                None
            }),
    {
        match self {
            Number::PosInt(n) if *n <= u32::MAX as u64 => Some(*n as u32),
            Number::Float(bits) => {
                let whole: u64 = match f64_to_u64_no_sig_lossless(*bits) {
                    Some(v) => v,
                    None => return None,
                };

                if *bits < 0x8000_0000_0000_0000 && whole <= u32::MAX as u64 {
                    Some(whole as u32)
                } else if whole == 0 {
                    Some(0)
                } else {
                    None
                }
            },
            _ => None,
        }
    }

    /// The number as a `u64`, if it equals exactly a whole number that a
    /// `u64` can hold: an integer in range, or a float in range with no
    /// fractional part. NaN and the infinities give `None`.
    pub fn as_u64_exact(&self) -> (r: Option<u64>)
        ensures
            r == (if self.exact_fits(u64::MIN as int, u64::MAX as int) {
                Some(self.exact_int()->0 as u64)
            } else {
                None
            }),
    {
        match self {
            Number::PosInt(n) => Some(*n),
            Number::Float(bits) => {
                let whole: u64 = match f64_to_u64_no_sig_lossless(*bits) {
                    Some(v) => v,
                    None => return None,
                };

                if *bits < 0x8000_0000_0000_0000 {
                    Some(whole as u64)
                } else if whole == 0 {
                    Some(0)
                } else {
                    None
                }
            },
            _ => None,
        }
    }

    /// The number as a `usize`, if it equals exactly a whole number that a
    /// `usize` can hold: an integer in range, or a float in range with no
    /// fractional part. NaN and the infinities give `None`.
    pub fn as_usize_exact(&self) -> (r: Option<usize>)
        ensures
            r == (if self.exact_fits(usize::MIN as int, usize::MAX as int) {
                Some(self.exact_int()->0 as usize)
            } else {
                None
            }),
    {
        match self {
            Number::PosInt(n) if *n <= usize::MAX as u64 => Some(*n as usize),
            Number::Float(bits) => {
                let whole: u64 = match f64_to_u64_no_sig_lossless(*bits) {
                    Some(v) => v,
                    None => return None,
                };

                if *bits < 0x8000_0000_0000_0000 && whole <= usize::MAX as u64 {
                    Some(whole as usize)
                } else if whole == 0 {
                    Some(0)
                } else {
                    None
                }
            },
            _ => None,
        }
    }

    /// The number as a `u128`, if it equals exactly a whole number that a
    /// `u128` can hold: an integer in range, or a float in range with no
    /// fractional part. NaN and the infinities give `None`.
    pub fn as_u128_exact(&self) -> (r: Option<u128>)
        ensures
            r == (if self.exact_fits(u128::MIN as int, u128::MAX as int) {
                Some(self.exact_int()->0 as u128)
            } else {
                None
            }),
    {
        match self {
            Number::PosInt(n) => Some(*n as u128),
            Number::Float(bits) => {
                let whole: u128 = match f64_to_u128_no_sig_lossless(*bits) {
                    Some(v) => v,
                    None => return None,
                };

                if *bits < 0x8000_0000_0000_0000 {
                    Some(whole as u128)
                } else if whole == 0 {
                    Some(0)
                } else {
                    None
                }
            },
            _ => None,
        }
    }

}

/// Casts to integer types that never fail.
impl Number {
    /// The number cast to `i8` as Rust's `as` does: an integer keeps
    /// its low bits, a float is rounded toward zero and saturated, NaN gives
    /// zero and an infinity gives `i8::MIN` or `i8::MAX`.
    pub fn as_i8(&self) -> (r: i8)
        ensures
            self.spec_is_integer() ==> r == self.int_value() as i8,
            !self.spec_is_integer() ==> r == self.saturated(i8::MIN as int, i8::MAX as int),
    {
        match self {
            Number::PosInt(n) => *n as i8,
            Number::NegInt(n) => neg_i65_to_i128(*n) as i8,
            Number::Float(bits) => saturate_signed(f64_sign_negative_exec(*bits), f64_truncated_magnitude_saturating(*bits), i8::MAX as u128) as i8,
            Number::NaN => 0,
            Number::Inf { negative } => from_inf(*negative),
        }
    }

    /// The number cast to `i16` as Rust's `as` does: an integer keeps
    /// its low bits, a float is rounded toward zero and saturated, NaN gives
    /// zero and an infinity gives `i16::MIN` or `i16::MAX`.
    pub fn as_i16(&self) -> (r: i16)
        ensures
            self.spec_is_integer() ==> r == self.int_value() as i16,
            !self.spec_is_integer() ==> r == self.saturated(i16::MIN as int, i16::MAX as int),
    {
        match self {
            Number::PosInt(n) => *n as i16,
            Number::NegInt(n) => neg_i65_to_i128(*n) as i16,
            Number::Float(bits) => saturate_signed(f64_sign_negative_exec(*bits), f64_truncated_magnitude_saturating(*bits), i16::MAX as u128) as i16,
            Number::NaN => 0,
            Number::Inf { negative } => from_inf(*negative),
        }
    }

    /// The number cast to `i32` as Rust's `as` does: an integer keeps
    /// its low bits, a float is rounded toward zero and saturated, NaN gives
    /// zero and an infinity gives `i32::MIN` or `i32::MAX`.
    pub fn as_i32(&self) -> (r: i32)
        ensures
            self.spec_is_integer() ==> r == self.int_value() as i32,
            !self.spec_is_integer() ==> r == self.saturated(i32::MIN as int, i32::MAX as int),
    {
        match self {
            Number::PosInt(n) => *n as i32,
            Number::NegInt(n) => neg_i65_to_i128(*n) as i32,
            Number::Float(bits) => saturate_signed(f64_sign_negative_exec(*bits), f64_truncated_magnitude_saturating(*bits), i32::MAX as u128) as i32,
            Number::NaN => 0,
            Number::Inf { negative } => from_inf(*negative),
        }
    }

    /// The number cast to `i64` as Rust's `as` does: an integer keeps
    /// its low bits, a float is rounded toward zero and saturated, NaN gives
    /// zero and an infinity gives `i64::MIN` or `i64::MAX`.
    pub fn as_i64(&self) -> (r: i64)
        ensures
            self.spec_is_integer() ==> r == self.int_value() as i64,
            !self.spec_is_integer() ==> r == self.saturated(i64::MIN as int, i64::MAX as int),
    {
        match self {
            Number::PosInt(n) => *n as i64,
            Number::NegInt(n) => neg_i65_to_i128(*n) as i64,
            Number::Float(bits) => saturate_signed(f64_sign_negative_exec(*bits), f64_truncated_magnitude_saturating(*bits), i64::MAX as u128) as i64,
            Number::NaN => 0,
            Number::Inf { negative } => from_inf(*negative),
        }
    }

    /// The number cast to `isize` as Rust's `as` does: an integer keeps
    /// its low bits, a float is rounded toward zero and saturated, NaN gives
    /// zero and an infinity gives `isize::MIN` or `isize::MAX`.
    pub fn as_isize(&self) -> (r: isize)
        ensures
            self.spec_is_integer() ==> r == self.int_value() as isize,
            !self.spec_is_integer() ==> r == self.saturated(isize::MIN as int, isize::MAX as int),
    {
        match self {
            Number::PosInt(n) => *n as isize,
            Number::NegInt(n) => neg_i65_to_i128(*n) as isize,
            Number::Float(bits) => saturate_signed(f64_sign_negative_exec(*bits), f64_truncated_magnitude_saturating(*bits), isize::MAX as u128) as isize,
            Number::NaN => 0,
            Number::Inf { negative } => from_inf(*negative),
        }
    }

    /// The number cast to `i128` as Rust's `as` does: an integer keeps
    /// its low bits, a float is rounded toward zero and saturated, NaN gives
    /// zero and an infinity gives `i128::MIN` or `i128::MAX`.
    pub fn as_i128(&self) -> (r: i128)
        ensures
            self.spec_is_integer() ==> r == self.int_value() as i128,
            !self.spec_is_integer() ==> r == self.saturated(i128::MIN as int, i128::MAX as int),
    {
        match self {
            Number::PosInt(n) => *n as i128,
            Number::NegInt(n) => neg_i65_to_i128(*n),
            Number::Float(bits) => saturate_signed(f64_sign_negative_exec(*bits), f64_truncated_magnitude_saturating(*bits), i128::MAX as u128) as i128,
            Number::NaN => 0,
            Number::Inf { negative } => from_inf(*negative),
        }
    }

    /// The number cast to `u8` as Rust's `as` does: an integer keeps
    /// its low bits, a float is rounded toward zero and saturated, NaN gives
    /// zero and an infinity gives `u8::MIN` or `u8::MAX`.
    pub fn as_u8(&self) -> (r: u8)
        ensures
            self.spec_is_integer() ==> r == self.int_value() as u8,
            !self.spec_is_integer() ==> r == self.saturated(u8::MIN as int, u8::MAX as int),
    {
        match self {
            Number::PosInt(n) => *n as u8,
            Number::NegInt(n) => neg_i65_to_i128(*n) as u8,
            Number::Float(bits) => saturate_unsigned(f64_sign_negative_exec(*bits), f64_truncated_magnitude_saturating(*bits), u8::MAX as u128) as u8,
            Number::NaN => 0,
            Number::Inf { negative } => from_inf(*negative),
        }
    }

    /// The number cast to `u16` as Rust's `as` does: an integer keeps
    /// its low bits, a float is rounded toward zero and saturated, NaN gives
    /// zero and an infinity gives `u16::MIN` or `u16::MAX`.
    pub fn as_u16(&self) -> (r: u16)
        ensures
            self.spec_is_integer() ==> r == self.int_value() as u16,
            !self.spec_is_integer() ==> r == self.saturated(u16::MIN as int, u16::MAX as int),
    {
        match self {
            Number::PosInt(n) => *n as u16,
            Number::NegInt(n) => neg_i65_to_i128(*n) as u16,
            Number::Float(bits) => saturate_unsigned(f64_sign_negative_exec(*bits), f64_truncated_magnitude_saturating(*bits), u16::MAX as u128) as u16,
            Number::NaN => 0,
            Number::Inf { negative } => from_inf(*negative),
        }
    }

    /// The number cast to `u32` as Rust's `as` does: an integer keeps
    /// its low bits, a float is rounded toward zero and saturated, NaN gives
    /// zero and an infinity gives `u32::MIN` or `u32::MAX`.
    pub fn as_u32(&self) -> (r: u32)
        ensures
            self.spec_is_integer() ==> r == self.int_value() as u32,
            !self.spec_is_integer() ==> r == self.saturated(u32::MIN as int, u32::MAX as int),
    {
        match self {
            Number::PosInt(n) => *n as u32,
            Number::NegInt(n) => neg_i65_to_i128(*n) as u32,
            Number::Float(bits) => saturate_unsigned(f64_sign_negative_exec(*bits), f64_truncated_magnitude_saturating(*bits), u32::MAX as u128) as u32,
            Number::NaN => 0,
            Number::Inf { negative } => from_inf(*negative),
        }
    }

    /// The number cast to `u64` as Rust's `as` does: an integer keeps
    /// its low bits, a float is rounded toward zero and saturated, NaN gives
    /// zero and an infinity gives `u64::MIN` or `u64::MAX`.
    pub fn as_u64(&self) -> (r: u64)
        ensures
            self.spec_is_integer() ==> r == self.int_value() as u64,
            !self.spec_is_integer() ==> r == self.saturated(u64::MIN as int, u64::MAX as int),
    {
        match self {
            Number::PosInt(n) => *n,
            Number::NegInt(n) => neg_i65_to_i128(*n) as u64,
            Number::Float(bits) => saturate_unsigned(f64_sign_negative_exec(*bits), f64_truncated_magnitude_saturating(*bits), u64::MAX as u128) as u64,
            Number::NaN => 0,
            Number::Inf { negative } => from_inf(*negative),
        }
    }

    /// The number cast to `usize` as Rust's `as` does: an integer keeps
    /// its low bits, a float is rounded toward zero and saturated, NaN gives
    /// zero and an infinity gives `usize::MIN` or `usize::MAX`.
    pub fn as_usize(&self) -> (r: usize)
        ensures
            self.spec_is_integer() ==> r == self.int_value() as usize,
            !self.spec_is_integer() ==> r == self.saturated(usize::MIN as int, usize::MAX as int),
    {
        match self {
            Number::PosInt(n) => *n as usize,
            Number::NegInt(n) => neg_i65_to_i128(*n) as usize,
            Number::Float(bits) => saturate_unsigned(f64_sign_negative_exec(*bits), f64_truncated_magnitude_saturating(*bits), usize::MAX as u128) as usize,
            Number::NaN => 0,
            Number::Inf { negative } => from_inf(*negative),
        }
    }

    /// The number cast to `u128` as Rust's `as` does: an integer keeps
    /// its low bits, a float is rounded toward zero and saturated, NaN gives
    /// zero and an infinity gives `u128::MIN` or `u128::MAX`.
    pub fn as_u128(&self) -> (r: u128)
        ensures
            self.spec_is_integer() ==> r == self.int_value() as u128,
            !self.spec_is_integer() ==> r == self.saturated(u128::MIN as int, u128::MAX as int),
    {
        match self {
            Number::PosInt(n) => *n as u128,
            Number::NegInt(n) => neg_i65_to_i128(*n) as u128,
            Number::Float(bits) => saturate_unsigned(f64_sign_negative_exec(*bits), f64_truncated_magnitude_saturating(*bits), u128::MAX as u128) as u128,
            Number::NaN => 0,
            Number::Inf { negative } => from_inf(*negative),
        }
    }

}

/// Conversions to the float types, as IEEE-754 bit patterns.
impl Number {
    /// Checks if the number is a float, NaN or an infinity whose value a
    /// binary32 holds without loss. Integers never fit.
    pub fn fits_in_f32(&self) -> (r: bool)
        ensures
            r == self.fits_in_f32_spec(),
    {
        match self {
            Number::Float(bits) => f64_to_f32_lossless(*bits).is_some(),
            Number::NaN | Number::Inf { .. } => true,
            _ => false,
        }
    }

    /// Checks if the number is a float, NaN or an infinity; a binary64
    /// holds all of them. Integers never fit.
    pub fn fits_in_f64(&self) -> (r: bool)
        ensures
            r == (*self is Float || *self is NaN || *self is Inf),
    {
        matches!(self, Number::Float(_) | Number::NaN | Number::Inf { .. })
    }

    /// The binary32 pattern of a float-domain number that a binary32 holds
    /// without loss; `None` for integers.
    pub fn get_f32(&self) -> (r: Option<u32>)
        ensures
            r is Some == self.fits_in_f32_spec(),
            *self is Float && r is Some ==> f32_is_finite(r.unwrap()) && f32_sign_negative(r.unwrap())
                == f64_sign_negative(self->Float_0) && f32_scaled_magnitude(r.unwrap())
                == f64_scaled_magnitude(self->Float_0),
            *self is NaN ==> r == Some(F32_NAN),
            *self == (Number::Inf { negative: false }) ==> r == Some(F32_INFINITY),
            *self == (Number::Inf { negative: true }) ==> r == Some(F32_NEG_INFINITY),
    {
        match self {
            Number::Float(bits) => f64_to_f32_lossless(*bits),
            Number::NaN => Some(F32_NAN),
            Number::Inf { negative } => Some(if *negative { F32_NEG_INFINITY } else { F32_INFINITY }),
            _ => None,
        }
    }

    /// The binary64 pattern of a float-domain number; `None` for integers.
    pub fn get_f64(&self) -> (r: Option<u64>)
        ensures
            r == self.f64_pattern(),
    {
        match self {
            Number::Float(bits) => Some(*bits),
            Number::NaN => Some(F64_NAN),
            Number::Inf { negative } => Some(if *negative { F64_NEG_INFINITY } else { F64_INFINITY }),
            _ => None,
        }
    }

    /// The binary32 pattern of the float equal to this number: an integer
    /// with at most 24 significant bits, or a float that a binary32 holds
    /// without loss. NaN and the infinities never convert exactly.
    pub fn as_f32_exact(&self) -> (r: Option<u32>)
        ensures
            self.spec_is_integer() ==> (r is Some == fits_precision(self.int_magnitude(), 24)),
            self.spec_is_integer() && r is Some ==> f32_is_finite(r.unwrap()) && f32_integer_value(
                r.unwrap(),
            ) == Some(self.int_value()),
            *self is Float ==> (r is Some == self.fits_in_f32_spec()),
            *self is Float && r is Some ==> f32_is_finite(r.unwrap()) && f32_sign_negative(r.unwrap())
                == f64_sign_negative(self->Float_0) && f32_scaled_magnitude(r.unwrap())
                == f64_scaled_magnitude(self->Float_0),
            *self is NaN || *self is Inf ==> r is None,
    {
        match self {
            Number::PosInt(n) => u64_to_f32_lossless(*n),
            Number::NegInt(n) => {
                if *n == 0 {
                    proof {
                        lemma2_to64();
                        vstd::arithmetic::power2::lemma2_to64_rest();
                        vstd::arithmetic::power2::lemma_pow2_adds(23, 41);
                        assert(f32_integer_value(0xdf80_0000) == Some(-0x1_0000_0000_0000_0000));
                        assert(pow2(64) % pow2(64) == 0 && pow2(64) / pow2(64) < pow2(24));
                    }
                    Some(0xdf80_0000)
                } else {
                    match u64_to_f32_lossless(u64::MAX - *n + 1) {
                        Some(v) => {
                            proof {
                                lemma_f32_set_sign(v);
                            }
                            Some(v + 0x8000_0000)
                        },
                        None => None,
                    }
                }
            },
            Number::Float(bits) => f64_to_f32_lossless(*bits),
            Number::NaN | Number::Inf { .. } => None,
        }
    }

    /// The binary64 pattern of the float equal to this number: an integer
    /// with at most 53 significant bits, or a float. NaN and the infinities
    /// never convert exactly.
    pub fn as_f64_exact(&self) -> (r: Option<u64>)
        ensures
            self.spec_is_integer() ==> (r is Some == fits_precision(self.int_magnitude(), 53)),
            self.spec_is_integer() && r is Some ==> f64_is_finite(r.unwrap()) && f64_integer_value(
                r.unwrap(),
            ) == Some(self.int_value()),
            *self is Float ==> r == Some(self->Float_0),
            *self is NaN || *self is Inf ==> r is None,
    {
        match self {
            Number::PosInt(n) => u64_to_f64_lossless(*n),
            Number::NegInt(n) => {
                if *n == 0 {
                    proof {
                        lemma2_to64();
                        vstd::arithmetic::power2::lemma2_to64_rest();
                        let b: u64 = 0xc3f0_0000_0000_0000;
                        assert(float_bits::f64_biased_exponent(b) == 1087);
                        assert(float_bits::f64_fraction(b) == 0);
                        assert(float_bits::f64_exponent(b) == 12);
                        assert(float_bits::f64_significand(b) == 0x10_0000_0000_0000);
                        assert(0x10_0000_0000_0000 * pow2(12) == 0x1_0000_0000_0000_0000);
                        assert(f64_integer_value(b) == Some(-0x1_0000_0000_0000_0000));
                        assert(pow2(64) % pow2(64) == 0 && pow2(64) / pow2(64) < pow2(53));
                    }
                    Some(0xc3f0_0000_0000_0000)
                } else {
                    match u64_to_f64_lossless(u64::MAX - *n + 1) {
                        Some(v) => {
                            proof {
                                lemma_f64_set_sign(v);
                            }
                            Some(v + 0x8000_0000_0000_0000)
                        },
                        None => None,
                    }
                }
            },
            Number::Float(bits) => Some(*bits),
            Number::NaN | Number::Inf { .. } => None,
        }
    }
}

/// Casts to the float types, as IEEE-754 bit patterns.
impl Number {
    /// The binary64 pattern of the number cast to `f64` as Rust's `as`
    /// does: an integer is rounded to the nearest binary64 value, ties to
    /// even.
    pub fn as_f64(&self) -> (r: u64)
        ensures
            self.spec_is_integer() ==> f64_is_finite(r) && f64_integer_value(r) == Some(
                self.int_rounded(53),
            ),
            !self.spec_is_integer() ==> Some(r) == self.f64_pattern(),
    {
        match self {
            Number::PosInt(n) => u64_to_f64_rounded(*n),
            Number::NegInt(n) => {
                if *n == 0 {
                    proof {
                        lemma_two_pow_64_rounds_to_itself(53);
                        lemma2_to64();
                        vstd::arithmetic::power2::lemma2_to64_rest();
                        let b: u64 = 0xc3f0_0000_0000_0000;
                        assert(float_bits::f64_biased_exponent(b) == 1087);
                        assert(float_bits::f64_fraction(b) == 0);
                        assert(float_bits::f64_exponent(b) == 12);
                        assert(float_bits::f64_significand(b) == 0x10_0000_0000_0000);
                        assert(0x10_0000_0000_0000 * pow2(12) == 0x1_0000_0000_0000_0000);
                        assert(f64_integer_value(b) == Some(-0x1_0000_0000_0000_0000));
                    }
                    0xc3f0_0000_0000_0000
                } else {
                    let v = u64_to_f64_rounded(u64::MAX - *n + 1);
                    proof {
                        lemma_f64_set_sign(v);
                    }
                    v + 0x8000_0000_0000_0000
                }
            },
            Number::Float(bits) => *bits,
            Number::NaN => F64_NAN,
            Number::Inf { negative } => if *negative {
                F64_NEG_INFINITY
            } else {
                F64_INFINITY
            },
        }
    }

    /// The binary32 pattern of the number cast to `f32` as Rust's `as`
    /// does: an integer or a float is rounded to the nearest binary32 value,
    /// ties to even, and a float beyond the binary32 range becomes an
    /// infinity of its sign.
    pub fn as_f32(&self) -> (r: u32)
        ensures
            self.spec_is_integer() ==> f32_is_finite(r) && f32_integer_value(r) == Some(
                self.int_rounded(24),
            ),
            *self is Float ==> match f32_round_scaled(f64_scaled_magnitude(self->Float_0)) {
                Some(v) => f32_is_finite(r) && f32_sign_negative(r) == f64_sign_negative(
                    self->Float_0,
                ) && f32_scaled_magnitude(r) == v,
                None => r == (if f64_sign_negative(self->Float_0) {
                    F32_NEG_INFINITY
                } else {
                    F32_INFINITY
                }),
            },
            *self is NaN ==> r == F32_NAN,
            *self == (Number::Inf { negative: false }) ==> r == F32_INFINITY,
            *self == (Number::Inf { negative: true }) ==> r == F32_NEG_INFINITY,
    {
        match self {
            Number::PosInt(n) => u64_to_f32_rounded(*n),
            Number::NegInt(n) => {
                if *n == 0 {
                    proof {
                        lemma_two_pow_64_rounds_to_itself(24);
                        lemma2_to64();
                        vstd::arithmetic::power2::lemma2_to64_rest();
                        vstd::arithmetic::power2::lemma_pow2_adds(23, 41);
                        assert(f32_integer_value(0xdf80_0000) == Some(-0x1_0000_0000_0000_0000));
                    }
                    0xdf80_0000
                } else {
                    let v = u64_to_f32_rounded(u64::MAX - *n + 1);
                    proof {
                        lemma_f32_set_sign(v);
                    }
                    v + 0x8000_0000
                }
            },
            Number::Float(bits) => f64_to_f32_rounded(*bits),
            Number::NaN => F32_NAN,
            Number::Inf { negative } => if *negative {
                F32_NEG_INFINITY
            } else {
                F32_INFINITY
            },
        }
    }
}

/// 2^64 has a single significant bit, so rounding leaves it unchanged.
proof fn lemma_two_pow_64_rounds_to_itself(p: nat)
    requires
        p == 24 || p == 53,
    ensures
        round_to_precision(0x1_0000_0000_0000_0000, p) == 0x1_0000_0000_0000_0000,
{
    let n: nat = 0x1_0000_0000_0000_0000;
    let s = (65 - p) as nat;
    lemma2_to64();
    vstd::arithmetic::power2::lemma2_to64_rest();
    vstd::arithmetic::power2::lemma_pow2_unfold(65);
    lemma_bit_len(n, 65);
    vstd::arithmetic::power2::lemma_pow2_adds((p - 1) as nat, s);
    vstd::arithmetic::power2::lemma_pow2_pos(s);
    vstd::arithmetic::power2::lemma_pow2_pos((s - 1) as nat);
    vstd::arithmetic::div_mod::lemma_div_by_multiple(pow2((p - 1) as nat) as int, pow2(s) as int);
    vstd::arithmetic::div_mod::lemma_mod_multiples_basic(pow2((p - 1) as nat) as int, pow2(s) as int);
    assert(round_half_even(n, s) == pow2((p - 1) as nat));
}

/// The sign bit of a float pattern.
fn f64_sign_negative_exec(bits: u64) -> (r: bool)
    ensures
        r == f64_sign_negative(bits),
{
    bits >= 0x8000_0000_0000_0000
}


/// Classifies a binary64 bit pattern: NaN, an infinity, or a float.
impl Number {
    /// The number that a binary64 value with pattern `bits` denotes. Every
    /// NaN pattern gives [`Number::NaN`].
    pub fn from_f64_bits(bits: u64) -> (r: Number)
        ensures
            r.wf(),
            r == Number::spec_from_f64_bits(bits),
    {
        let (negative, exponent, fraction) = f64_fields(bits);
        if exponent == 0x7ff {
            if fraction != 0 {
                Number::NaN
            } else {
                Number::Inf { negative }
            }
        } else {
            Number::Float(bits)
        }
    }
}


impl From<i8> for Number {
    /// Converts a `i8` to the integer number of the same value.
    fn from(value: i8) -> Number {
        if value >= 0 {
            Number::PosInt(value as u64)
        } else {
            Number::NegInt((value as i128 + 0x1_0000_0000_0000_0000) as u64)
        }
    }
}

impl vstd::std_specs::convert::FromSpecImpl<i8> for Number {
    open spec fn obeys_from_spec() -> bool {
        true
    }

    open spec fn from_spec(v: i8) -> Number {
        Number::from_int(v as int)
    }
}

impl From<i16> for Number {
    /// Converts a `i16` to the integer number of the same value.
    fn from(value: i16) -> Number {
        if value >= 0 {
            Number::PosInt(value as u64)
        } else {
            Number::NegInt((value as i128 + 0x1_0000_0000_0000_0000) as u64)
        }
    }
}

impl vstd::std_specs::convert::FromSpecImpl<i16> for Number {
    open spec fn obeys_from_spec() -> bool {
        true
    }

    open spec fn from_spec(v: i16) -> Number {
        Number::from_int(v as int)
    }
}

impl From<i32> for Number {
    /// Converts a `i32` to the integer number of the same value.
    fn from(value: i32) -> Number {
        if value >= 0 {
            Number::PosInt(value as u64)
        } else {
            Number::NegInt((value as i128 + 0x1_0000_0000_0000_0000) as u64)
        }
    }
}

impl vstd::std_specs::convert::FromSpecImpl<i32> for Number {
    open spec fn obeys_from_spec() -> bool {
        true
    }

    open spec fn from_spec(v: i32) -> Number {
        Number::from_int(v as int)
    }
}

impl From<i64> for Number {
    /// Converts a `i64` to the integer number of the same value.
    fn from(value: i64) -> Number {
        if value >= 0 {
            Number::PosInt(value as u64)
        } else {
            Number::NegInt((value as i128 + 0x1_0000_0000_0000_0000) as u64)
        }
    }
}

impl vstd::std_specs::convert::FromSpecImpl<i64> for Number {
    open spec fn obeys_from_spec() -> bool {
        true
    }

    open spec fn from_spec(v: i64) -> Number {
        Number::from_int(v as int)
    }
}

impl From<isize> for Number {
    /// Converts a `isize` to the integer number of the same value.
    fn from(value: isize) -> Number {
        if value >= 0 {
            Number::PosInt(value as u64)
        } else {
            Number::NegInt((value as i128 + 0x1_0000_0000_0000_0000) as u64)
        }
    }
}

impl vstd::std_specs::convert::FromSpecImpl<isize> for Number {
    open spec fn obeys_from_spec() -> bool {
        true
    }

    open spec fn from_spec(v: isize) -> Number {
        Number::from_int(v as int)
    }
}

impl From<u8> for Number {
    /// Converts a `u8` to the integer number of the same value.
    fn from(value: u8) -> Number {
        Number::PosInt(value as u64)
    }
}

impl vstd::std_specs::convert::FromSpecImpl<u8> for Number {
    open spec fn obeys_from_spec() -> bool {
        true
    }

    open spec fn from_spec(v: u8) -> Number {
        Number::from_int(v as int)
    }
}

impl From<u16> for Number {
    /// Converts a `u16` to the integer number of the same value.
    fn from(value: u16) -> Number {
        Number::PosInt(value as u64)
    }
}

impl vstd::std_specs::convert::FromSpecImpl<u16> for Number {
    open spec fn obeys_from_spec() -> bool {
        true
    }

    open spec fn from_spec(v: u16) -> Number {
        Number::from_int(v as int)
    }
}

impl From<u32> for Number {
    /// Converts a `u32` to the integer number of the same value.
    fn from(value: u32) -> Number {
        Number::PosInt(value as u64)
    }
}

impl vstd::std_specs::convert::FromSpecImpl<u32> for Number {
    open spec fn obeys_from_spec() -> bool {
        true
    }

    open spec fn from_spec(v: u32) -> Number {
        Number::from_int(v as int)
    }
}

impl From<u64> for Number {
    /// Converts a `u64` to the integer number of the same value.
    fn from(value: u64) -> Number {
        Number::PosInt(value as u64)
    }
}

impl vstd::std_specs::convert::FromSpecImpl<u64> for Number {
    open spec fn obeys_from_spec() -> bool {
        true
    }

    open spec fn from_spec(v: u64) -> Number {
        Number::from_int(v as int)
    }
}

impl From<usize> for Number {
    /// Converts a `usize` to the integer number of the same value.
    fn from(value: usize) -> Number {
        Number::PosInt(value as u64)
    }
}

impl vstd::std_specs::convert::FromSpecImpl<usize> for Number {
    open spec fn obeys_from_spec() -> bool {
        true
    }

    open spec fn from_spec(v: usize) -> Number {
        Number::from_int(v as int)
    }
}

impl PartialEq for Number {
    /// Compares two numbers. NaN equals NaN, +0.0 equals -0.0, and an integer
    /// never equals a float.
    fn eq(&self, other: &Number) -> (r: bool) {
        match (self, other) {
            (Number::PosInt(a), Number::PosInt(b)) => *a == *b,
            (Number::NegInt(a), Number::NegInt(b)) => *a == *b,
            (Number::Float(a), Number::Float(b)) => {
                let (_, a_exponent, a_fraction) = f64_fields(*a);
                let (_, b_exponent, b_fraction) = f64_fields(*b);
                *a == *b || (a_exponent == 0 && a_fraction == 0 && b_exponent == 0 && b_fraction
                    == 0)
            },
            (Number::NaN, Number::NaN) => true,
            (Number::Inf { negative: a }, Number::Inf { negative: b }) => *a == *b,
            _ => false,
        }
    }
}

impl vstd::std_specs::cmp::PartialEqSpecImpl for Number {
    open spec fn obeys_eq_spec() -> bool {
        true
    }

    open spec fn eq_spec(&self, other: &Number) -> bool {
        Number::numbers_equal(*self, *other)
    }
}

impl Number {
    /// The words that [`Hash`](core::hash::Hash) feeds to a hasher: a tag
    /// for the variant and a payload. Numbers that are equal give the same
    /// words: both zero floats give those of +0.0.
    pub fn hash_words(&self) -> (r: (u8, u64))
        ensures
            forall|other: Number| #[trigger] self.eq_spec(&other) ==> r == other.spec_hash_words(),
            r == self.spec_hash_words(),
    {
        match self {
            Number::PosInt(n) => (0, *n),
            Number::NegInt(n) => (1, *n),
            Number::Float(bits) => {
                let (_, exponent, fraction) = f64_fields(*bits);
                if exponent == 0 && fraction == 0 {
                    (2, 0)
                } else {
                    (2, *bits)
                }
            },
            Number::NaN => (3, 0),
            Number::Inf { negative } => (4, if *negative { 1 } else { 0 }),
        }
    }

    /// The words of [`Number::hash_words`].
    pub open spec fn spec_hash_words(self) -> (u8, u64) {
        match self {
            Number::PosInt(n) => (0, n),
            Number::NegInt(n) => (1, n),
            Number::Float(bits) => if f64_is_zero(bits) {
                (2, 0)
            } else {
                (2, bits)
            },
            Number::NaN => (3, 0),
            Number::Inf { negative } => (4, if negative { 1 } else { 0 }),
        }
    }
}

/// Relies on `Hasher::write_u8`: feeds one byte to the hasher's state.
#[verifier::external_body]
fn hasher_write_u8<H: std::hash::Hasher>(state: &mut H, i: u8) {
    state.write_u8(i)
}

/// Relies on `Hasher::write_u64`: feeds one integer to the hasher's state.
#[verifier::external_body]
fn hasher_write_u64<H: std::hash::Hasher>(state: &mut H, i: u64) {
    state.write_u64(i)
}

impl core::hash::Hash for Number {
    /// Hashes the words of [`Number::hash_words`], so that equal numbers
    /// hash alike.
    fn hash<H: core::hash::Hasher>(&self, state: &mut H) {
        let (tag, payload) = self.hash_words();
        hasher_write_u8(state, tag);
        hasher_write_u64(state, payload);
    }
}


/// Comparisons of numbers with primitive integers.
impl PartialEq<i8> for Number {
    /// The number equals exactly the integer (a float with no fractional
    /// part included).
    fn eq(&self, other: &i8) -> bool {
        match self.as_i8_exact() {
            Some(v) => v == *other,
            None => false,
        }
    }
}

impl vstd::std_specs::cmp::PartialEqSpecImpl<i8> for Number {
    open spec fn obeys_eq_spec() -> bool {
        true
    }

    open spec fn eq_spec(&self, other: &i8) -> bool {
        self.exact_int() == Some(*other as int)
    }
}

impl PartialEq<Number> for i8 {
    /// The integer equals the number exactly.
    fn eq(&self, other: &Number) -> bool {
        match other.as_i8_exact() {
            Some(v) => *self == v,
            None => false,
        }
    }
}

impl vstd::std_specs::cmp::PartialEqSpecImpl<Number> for i8 {
    open spec fn obeys_eq_spec() -> bool {
        true
    }

    open spec fn eq_spec(&self, other: &Number) -> bool {
        other.exact_int() == Some(*self as int)
    }
}
impl PartialEq<i16> for Number {
    /// The number equals exactly the integer (a float with no fractional
    /// part included).
    fn eq(&self, other: &i16) -> bool {
        match self.as_i16_exact() {
            Some(v) => v == *other,
            None => false,
        }
    }
}

impl vstd::std_specs::cmp::PartialEqSpecImpl<i16> for Number {
    open spec fn obeys_eq_spec() -> bool {
        true
    }

    open spec fn eq_spec(&self, other: &i16) -> bool {
        self.exact_int() == Some(*other as int)
    }
}

impl PartialEq<Number> for i16 {
    /// The integer equals the number exactly.
    fn eq(&self, other: &Number) -> bool {
        match other.as_i16_exact() {
            Some(v) => *self == v,
            None => false,
        }
    }
}

impl vstd::std_specs::cmp::PartialEqSpecImpl<Number> for i16 {
    open spec fn obeys_eq_spec() -> bool {
        true
    }

    open spec fn eq_spec(&self, other: &Number) -> bool {
        other.exact_int() == Some(*self as int)
    }
}
impl PartialEq<i32> for Number {
    /// The number equals exactly the integer (a float with no fractional
    /// part included).
    fn eq(&self, other: &i32) -> bool {
        match self.as_i32_exact() {
            Some(v) => v == *other,
            None => false,
        }
    }
}

impl vstd::std_specs::cmp::PartialEqSpecImpl<i32> for Number {
    open spec fn obeys_eq_spec() -> bool {
        true
    }

    open spec fn eq_spec(&self, other: &i32) -> bool {
        self.exact_int() == Some(*other as int)
    }
}

impl PartialEq<Number> for i32 {
    /// The integer equals the number exactly.
    fn eq(&self, other: &Number) -> bool {
        match other.as_i32_exact() {
            Some(v) => *self == v,
            None => false,
        }
    }
}

impl vstd::std_specs::cmp::PartialEqSpecImpl<Number> for i32 {
    open spec fn obeys_eq_spec() -> bool {
        true
    }

    open spec fn eq_spec(&self, other: &Number) -> bool {
        other.exact_int() == Some(*self as int)
    }
}
impl PartialEq<i64> for Number {
    /// The number equals exactly the integer (a float with no fractional
    /// part included).
    fn eq(&self, other: &i64) -> bool {
        match self.as_i64_exact() {
            Some(v) => v == *other,
            None => false,
        }
    }
}

impl vstd::std_specs::cmp::PartialEqSpecImpl<i64> for Number {
    open spec fn obeys_eq_spec() -> bool {
        true
    }

    open spec fn eq_spec(&self, other: &i64) -> bool {
        self.exact_int() == Some(*other as int)
    }
}

impl PartialEq<Number> for i64 {
    /// The integer equals the number exactly.
    fn eq(&self, other: &Number) -> bool {
        match other.as_i64_exact() {
            Some(v) => *self == v,
            None => false,
        }
    }
}

impl vstd::std_specs::cmp::PartialEqSpecImpl<Number> for i64 {
    open spec fn obeys_eq_spec() -> bool {
        true
    }

    open spec fn eq_spec(&self, other: &Number) -> bool {
        other.exact_int() == Some(*self as int)
    }
}
impl PartialEq<isize> for Number {
    /// The number equals exactly the integer (a float with no fractional
    /// part included).
    fn eq(&self, other: &isize) -> bool {
        match self.as_isize_exact() {
            Some(v) => v == *other,
            None => false,
        }
    }
}

impl vstd::std_specs::cmp::PartialEqSpecImpl<isize> for Number {
    open spec fn obeys_eq_spec() -> bool {
        true
    }

    open spec fn eq_spec(&self, other: &isize) -> bool {
        self.exact_int() == Some(*other as int)
    }
}

impl PartialEq<Number> for isize {
    /// The integer equals the number exactly.
    fn eq(&self, other: &Number) -> bool {
        match other.as_isize_exact() {
            Some(v) => *self == v,
            None => false,
        }
    }
}

impl vstd::std_specs::cmp::PartialEqSpecImpl<Number> for isize {
    open spec fn obeys_eq_spec() -> bool {
        true
    }

    open spec fn eq_spec(&self, other: &Number) -> bool {
        other.exact_int() == Some(*self as int)
    }
}
impl PartialEq<i128> for Number {
    /// The number equals exactly the integer (a float with no fractional
    /// part included).
    fn eq(&self, other: &i128) -> bool {
        match self.as_i128_exact() {
            Some(v) => v == *other,
            None => false,
        }
    }
}

impl vstd::std_specs::cmp::PartialEqSpecImpl<i128> for Number {
    open spec fn obeys_eq_spec() -> bool {
        true
    }

    open spec fn eq_spec(&self, other: &i128) -> bool {
        self.exact_int() == Some(*other as int)
    }
}

impl PartialEq<Number> for i128 {
    /// The integer equals the number exactly.
    fn eq(&self, other: &Number) -> bool {
        match other.as_i128_exact() {
            Some(v) => *self == v,
            None => false,
        }
    }
}

impl vstd::std_specs::cmp::PartialEqSpecImpl<Number> for i128 {
    open spec fn obeys_eq_spec() -> bool {
        true
    }

    open spec fn eq_spec(&self, other: &Number) -> bool {
        other.exact_int() == Some(*self as int)
    }
}
impl PartialEq<u8> for Number {
    /// The number equals exactly the integer (a float with no fractional
    /// part included).
    fn eq(&self, other: &u8) -> bool {
        match self.as_u8_exact() {
            Some(v) => v == *other,
            None => false,
        }
    }
}

impl vstd::std_specs::cmp::PartialEqSpecImpl<u8> for Number {
    open spec fn obeys_eq_spec() -> bool {
        true
    }

    open spec fn eq_spec(&self, other: &u8) -> bool {
        self.exact_int() == Some(*other as int)
    }
}

impl PartialEq<Number> for u8 {
    /// The integer equals the number exactly.
    fn eq(&self, other: &Number) -> bool {
        match other.as_u8_exact() {
            Some(v) => *self == v,
            None => false,
        }
    }
}

impl vstd::std_specs::cmp::PartialEqSpecImpl<Number> for u8 {
    open spec fn obeys_eq_spec() -> bool {
        true
    }

    open spec fn eq_spec(&self, other: &Number) -> bool {
        other.exact_int() == Some(*self as int)
    }
}
impl PartialEq<u16> for Number {
    /// The number equals exactly the integer (a float with no fractional
    /// part included).
    fn eq(&self, other: &u16) -> bool {
        match self.as_u16_exact() {
            Some(v) => v == *other,
            None => false,
        }
    }
}

impl vstd::std_specs::cmp::PartialEqSpecImpl<u16> for Number {
    open spec fn obeys_eq_spec() -> bool {
        true
    }

    open spec fn eq_spec(&self, other: &u16) -> bool {
        self.exact_int() == Some(*other as int)
    }
}

impl PartialEq<Number> for u16 {
    /// The integer equals the number exactly.
    fn eq(&self, other: &Number) -> bool {
        match other.as_u16_exact() {
            Some(v) => *self == v,
            None => false,
        }
    }
}

impl vstd::std_specs::cmp::PartialEqSpecImpl<Number> for u16 {
    open spec fn obeys_eq_spec() -> bool {
        true
    }

    open spec fn eq_spec(&self, other: &Number) -> bool {
        other.exact_int() == Some(*self as int)
    }
}
impl PartialEq<u32> for Number {
    /// The number equals exactly the integer (a float with no fractional
    /// part included).
    fn eq(&self, other: &u32) -> bool {
        match self.as_u32_exact() {
            Some(v) => v == *other,
            None => false,
        }
    }
}

impl vstd::std_specs::cmp::PartialEqSpecImpl<u32> for Number {
    open spec fn obeys_eq_spec() -> bool {
        true
    }

    open spec fn eq_spec(&self, other: &u32) -> bool {
        self.exact_int() == Some(*other as int)
    }
}

impl PartialEq<Number> for u32 {
    /// The integer equals the number exactly.
    fn eq(&self, other: &Number) -> bool {
        match other.as_u32_exact() {
            Some(v) => *self == v,
            None => false,
        }
    }
}

impl vstd::std_specs::cmp::PartialEqSpecImpl<Number> for u32 {
    open spec fn obeys_eq_spec() -> bool {
        true
    }

    open spec fn eq_spec(&self, other: &Number) -> bool {
        other.exact_int() == Some(*self as int)
    }
}
impl PartialEq<u64> for Number {
    /// The number equals exactly the integer (a float with no fractional
    /// part included).
    fn eq(&self, other: &u64) -> bool {
        match self.as_u64_exact() {
            Some(v) => v == *other,
            None => false,
        }
    }
}

impl vstd::std_specs::cmp::PartialEqSpecImpl<u64> for Number {
    open spec fn obeys_eq_spec() -> bool {
        true
    }

    open spec fn eq_spec(&self, other: &u64) -> bool {
        self.exact_int() == Some(*other as int)
    }
}

impl PartialEq<Number> for u64 {
    /// The integer equals the number exactly.
    fn eq(&self, other: &Number) -> bool {
        match other.as_u64_exact() {
            Some(v) => *self == v,
            None => false,
        }
    }
}

impl vstd::std_specs::cmp::PartialEqSpecImpl<Number> for u64 {
    open spec fn obeys_eq_spec() -> bool {
        true
    }

    open spec fn eq_spec(&self, other: &Number) -> bool {
        other.exact_int() == Some(*self as int)
    }
}
impl PartialEq<usize> for Number {
    /// The number equals exactly the integer (a float with no fractional
    /// part included).
    fn eq(&self, other: &usize) -> bool {
        match self.as_usize_exact() {
            Some(v) => v == *other,
            None => false,
        }
    }
}

impl vstd::std_specs::cmp::PartialEqSpecImpl<usize> for Number {
    open spec fn obeys_eq_spec() -> bool {
        true
    }

    open spec fn eq_spec(&self, other: &usize) -> bool {
        self.exact_int() == Some(*other as int)
    }
}

impl PartialEq<Number> for usize {
    /// The integer equals the number exactly.
    fn eq(&self, other: &Number) -> bool {
        match other.as_usize_exact() {
            Some(v) => *self == v,
            None => false,
        }
    }
}

impl vstd::std_specs::cmp::PartialEqSpecImpl<Number> for usize {
    open spec fn obeys_eq_spec() -> bool {
        true
    }

    open spec fn eq_spec(&self, other: &Number) -> bool {
        other.exact_int() == Some(*self as int)
    }
}
impl PartialEq<u128> for Number {
    /// The number equals exactly the integer (a float with no fractional
    /// part included).
    fn eq(&self, other: &u128) -> bool {
        match self.as_u128_exact() {
            Some(v) => v == *other,
            None => false,
        }
    }
}

impl vstd::std_specs::cmp::PartialEqSpecImpl<u128> for Number {
    open spec fn obeys_eq_spec() -> bool {
        true
    }

    open spec fn eq_spec(&self, other: &u128) -> bool {
        self.exact_int() == Some(*other as int)
    }
}

impl PartialEq<Number> for u128 {
    /// The integer equals the number exactly.
    fn eq(&self, other: &Number) -> bool {
        match other.as_u128_exact() {
            Some(v) => *self == v,
            None => false,
        }
    }
}

impl vstd::std_specs::cmp::PartialEqSpecImpl<Number> for u128 {
    open spec fn obeys_eq_spec() -> bool {
        true
    }

    open spec fn eq_spec(&self, other: &Number) -> bool {
        other.exact_int() == Some(*self as int)
    }
}

/// Every integer in `[-2^64, 2^64 - 1]` converts to an integer number that
/// denotes it and equals it exactly, so that it fits, and reads back from,
/// every integer type whose range `[lo, hi]` holds it.
pub proof fn lemma_integer_round_trip(v: int, lo: int, hi: int)
    requires
        -two_pow_64() <= lo <= v <= hi < two_pow_64(),
    ensures
        Number::from_int(v).spec_is_integer(),
        Number::from_int(v).int_value() == v,
        Number::from_int(v).exact_int() == Some(v),
        Number::from_int(v).int_fits(lo, hi),
        Number::from_int(v).exact_fits(lo, hi),
{
}

/// For an integer number, fitting a range and converting exactly into it
/// agree, and the exact value is the integer itself.
pub proof fn lemma_integer_fits_agree(n: Number, lo: int, hi: int)
    requires
        n.spec_is_integer(),
    ensures
        n.exact_int() == Some(n.int_value()),
        n.int_fits(lo, hi) == n.exact_fits(lo, hi),
{
}

/// The integer encoding is exact: every integer number denotes a value in
/// `[-2^64, 2^64 - 1]` and is the number that value converts to, so
/// `NegInt(0)` is -2^64 and `PosInt(u64::MAX)` is 2^64 - 1.
pub proof fn lemma_integer_encoding(n: Number)
    requires
        n.spec_is_integer(),
    ensures
        -two_pow_64() <= n.int_value() < two_pow_64(),
        Number::from_int(n.int_value()) == n,
{
}

/// NaN equals NaN, every NaN pattern gives the same number and so the same
/// hash words, and the two zero patterns give equal numbers with equal hash
/// words.
pub proof fn lemma_nan_and_zero_identity(a: u64, b: u64)
    ensures
        Number::NaN.eq_spec(&Number::NaN),
        f64_is_nan(a) && f64_is_nan(b) ==> Number::spec_from_f64_bits(a) == Number::NaN
            && Number::spec_from_f64_bits(b) == Number::NaN,
        f64_is_zero(a) && f64_is_zero(b) ==> Number::spec_from_f64_bits(a).eq_spec(
            &Number::spec_from_f64_bits(b),
        ) && Number::spec_from_f64_bits(a).spec_hash_words() == Number::spec_from_f64_bits(
            b,
        ).spec_hash_words(),
{
}

/// An integer never equals a float, whatever their values.
pub proof fn lemma_domain_separation(v: int, bits: u64)
    ensures
        !Number::from_int(v).eq_spec(&Number::Float(bits)),
        !Number::Float(bits).eq_spec(&Number::from_int(v)),
{
}

} // verus!
