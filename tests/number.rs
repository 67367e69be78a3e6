use std::collections::hash_map::DefaultHasher;
use std::hash::{Hash, Hasher};
use twic::value::Number;

fn float(x: f64) -> Number {
    Number::from_f64_bits(x.to_bits())
}

fn hash_of(n: &Number) -> u64 {
    let mut h = DefaultHasher::new();
    n.hash(&mut h);
    h.finish()
}

#[test]
fn classification_from_f64_bits() {
    assert!(float(3.14).is_float());
    assert!(float(f64::NAN).is_nan());
    assert!(float(-f64::NAN).is_nan());
    assert!(float(f64::INFINITY).is_positive_infinite());
    assert!(float(f64::NEG_INFINITY).is_negative_infinite());
    assert!(float(f64::INFINITY).is_infinite());
    assert!(!float(1.0).is_infinite());
    assert!(Number::from(42).is_integer());
    assert!(!float(42.0).is_integer());
}

#[test]
fn sign_predicates() {
    assert!(Number::PosInt(42).is_positive());
    assert!(!Number::PosInt(0).is_positive());
    assert!(!Number::NegInt(1).is_positive());
    assert!(float(3.14).is_positive());
    assert!(!float(0.0).is_positive());
    assert!(!float(-2.71).is_positive());
    assert!(Number::Inf { negative: false }.is_positive());
    assert!(!Number::Inf { negative: true }.is_positive());
    assert!(!Number::NaN.is_positive());

    assert!(!Number::PosInt(42).is_negative());
    assert!(!Number::PosInt(0).is_negative());
    assert!(Number::NegInt(1).is_negative());
    assert!(!float(3.14).is_negative());
    assert!(!float(0.0).is_negative());
    assert!(!float(-0.0).is_negative());
    assert!(float(-2.71).is_negative());
    assert!(!Number::Inf { negative: false }.is_negative());
    assert!(Number::Inf { negative: true }.is_negative());
    assert!(!Number::NaN.is_negative());

    assert!(Number::PosInt(0).is_zero());
    assert!(float(0.0).is_zero());
    assert!(float(-0.0).is_zero());
    assert!(!Number::NegInt(1).is_zero());
    assert!(!float(5e-324).is_zero());
    assert!(!Number::NaN.is_zero());
}

#[test]
fn fits_signed() {
    assert!(Number::from(127).fits_in_i8());
    assert!(!Number::from(128).fits_in_i8());
    assert!(Number::from(-128).fits_in_i8());
    assert!(!Number::from(-129).fits_in_i8());
    assert!(Number::from(32767).fits_in_i16());
    assert!(!Number::from(32768).fits_in_i16());
    assert!(Number::from(-32768).fits_in_i16());
    assert!(!Number::from(-32769).fits_in_i16());
    assert!(Number::from(i32::MAX as i64).fits_in_i32());
    assert!(!Number::from(i32::MAX as i64 + 1).fits_in_i32());
    assert!(Number::from(i32::MIN as i64).fits_in_i32());
    assert!(!Number::from(i32::MIN as i64 - 1).fits_in_i32());
    assert!(Number::PosInt(i64::MAX as u64).fits_in_i64());
    assert!(!Number::PosInt(i64::MAX as u64 + 1).fits_in_i64());
    assert!(Number::from(i64::MIN).fits_in_i64());
    assert!(!Number::NegInt(i64::MIN as u64 - 1).fits_in_i64());
    assert!(Number::from(isize::MAX).fits_in_isize());
    assert!(!Number::PosInt(isize::MAX as u64 + 1).fits_in_isize());
    assert!(Number::from(isize::MIN).fits_in_isize());
    assert!(!Number::NegInt(isize::MIN as u64 - 1).fits_in_isize());
    assert!(Number::from(1u64).fits_in_i128());
    assert!(Number::from(-1i64).fits_in_i128());
    assert!(Number::from(u64::MAX).fits_in_i128());
    assert!(Number::NegInt(0).fits_in_i128());
    assert!(Number::NegInt(u64::MAX).fits_in_i128());
    assert!(!float(1.0).fits_in_i64());
    assert!(!Number::NaN.fits_in_i128());
}

#[test]
fn fits_unsigned() {
    assert!(Number::from(255).fits_in_u8());
    assert!(!Number::from(256).fits_in_u8());
    assert!(Number::from(0).fits_in_u8());
    assert!(!Number::from(-1).fits_in_u8());
    assert!(Number::from(65535).fits_in_u16());
    assert!(!Number::from(65536).fits_in_u16());
    assert!(!Number::from(-1).fits_in_u16());
    assert!(Number::from(4294967295u64).fits_in_u32());
    assert!(!Number::from(4294967296u64).fits_in_u32());
    assert!(!Number::from(-1).fits_in_u32());
    assert!(Number::from(u64::MAX).fits_in_u64());
    assert!(Number::from(0u64).fits_in_u64());
    assert!(!Number::from(-1i64).fits_in_u64());
    assert!(Number::from(usize::MAX).fits_in_usize());
    assert!(Number::from(0).fits_in_usize());
    assert!(!Number::from(-1).fits_in_usize());
    assert!(Number::from(u64::MAX).fits_in_u128());
    assert!(!Number::from(-1i64).fits_in_u128());
    assert!(!float(1.0).fits_in_u8());
}

#[test]
fn get_integers() {
    assert_eq!(Number::from(127).get_i8(), Some(127));
    assert_eq!(Number::from(128).get_i8(), None);
    assert_eq!(Number::from(-128).get_i8(), Some(-128));
    assert_eq!(Number::from(-129).get_i8(), None);
    assert_eq!(Number::NegInt(u64::MAX).get_i64(), Some(-1));
    assert_eq!(Number::from(i64::MIN).get_i64(), Some(i64::MIN));
    assert_eq!(Number::from(-40000).get_i16(), None);
    assert_eq!(Number::from(-40000).get_i32(), Some(-40000));
    assert_eq!(Number::from(-5).get_isize(), Some(-5));
    assert_eq!(Number::NegInt(0).get_i128(), Some(-(1i128 << 64)));
    assert_eq!(Number::from(u64::MAX).get_i128(), Some(u64::MAX as i128));
    assert_eq!(Number::from(255).get_u8(), Some(255));
    assert_eq!(Number::from(-1).get_u8(), None);
    assert_eq!(Number::from(65535).get_u16(), Some(65535));
    assert_eq!(Number::from(70000).get_u16(), None);
    assert_eq!(Number::from(70000).get_u32(), Some(70000));
    assert_eq!(Number::from(u64::MAX).get_u64(), Some(u64::MAX));
    assert_eq!(Number::from(7usize).get_usize(), Some(7));
    assert_eq!(Number::from(u64::MAX).get_u128(), Some(u64::MAX as u128));
    assert_eq!(float(1.0).get_i64(), None);
    assert_eq!(float(1.0).get_u8(), None);
    assert_eq!(Number::NaN.get_i32(), None);
}

#[test]
fn exact_integers_from_integers() {
    assert_eq!(Number::from(-1).as_i8_exact(), Some(-1));
    assert_eq!(Number::from(200).as_i8_exact(), None);
    assert_eq!(Number::from(200).as_u8_exact(), Some(200));
    assert_eq!(Number::from(-200).as_u8_exact(), None);
    assert_eq!(Number::NegInt(0).as_i64_exact(), None);
    assert_eq!(Number::NegInt(0).as_i128_exact(), Some(-(1i128 << 64)));
    assert_eq!(Number::from(u64::MAX).as_u128_exact(), Some(u64::MAX as u128));
    assert_eq!(Number::from(-1).as_u128_exact(), None);
    assert_eq!(Number::Inf { negative: false }.as_u64_exact(), None);
    assert_eq!(Number::NaN.as_i16_exact(), None);
}

#[test]
fn exact_integers_from_floats() {
    assert_eq!(float(42.0).as_i8_exact(), Some(42));
    assert_eq!(float(-128.0).as_i8_exact(), Some(-128));
    assert_eq!(float(-129.0).as_i8_exact(), None);
    assert_eq!(float(128.0).as_i8_exact(), None);
    assert_eq!(float(1.5).as_i32_exact(), None);
    assert_eq!(float(-0.0).as_u8_exact(), Some(0));
    assert_eq!(float(-1.0).as_u8_exact(), None);
    assert_eq!(float(65535.0).as_u16_exact(), Some(65535));
    assert_eq!(float(-32768.0).as_i16_exact(), Some(-32768));
    assert_eq!(float(4294967295.0).as_u32_exact(), Some(u32::MAX));
    assert_eq!(float(-2147483648.0).as_i32_exact(), Some(i32::MIN));
    assert_eq!(float(-9223372036854775808.0).as_i64_exact(), Some(i64::MIN));
    assert_eq!(float(9223372036854775808.0).as_i64_exact(), None);
    assert_eq!(float(18446744073709549568.0).as_u64_exact(), Some(18446744073709549568));
    assert_eq!(float(18446744073709551616.0).as_u64_exact(), None);
    assert_eq!(float(-4.0).as_isize_exact(), Some(-4));
    assert_eq!(float(8.0).as_usize_exact(), Some(8));
    assert_eq!(float(-170141183460469231731687303715884105728.0).as_i128_exact(), Some(i128::MIN));
    assert_eq!(float(170141183460469231731687303715884105728.0).as_i128_exact(), None);
    assert_eq!(float(1e20).as_u128_exact(), Some(100000000000000000000));
    assert_eq!(float(-1e20).as_u128_exact(), None);
    assert_eq!(float(1e20).as_u64_exact(), None);
}

#[test]
fn lossy_casts_of_integers_wrap() {
    assert_eq!(Number::from(300).as_u8(), 44);
    assert_eq!(Number::from(300).as_i8(), 44);
    assert_eq!(Number::from(-1).as_u8(), 255);
    assert_eq!(Number::from(-1).as_u64(), u64::MAX);
    assert_eq!(Number::from(-1).as_u128(), u128::MAX);
    assert_eq!(Number::NegInt(0).as_i64(), 0);
    assert_eq!(Number::NegInt(0).as_i128(), -(1i128 << 64));
    assert_eq!(Number::from(u64::MAX).as_i64(), -1);
    assert_eq!(Number::from(u64::MAX).as_i16(), -1);
    assert_eq!(Number::from(70000).as_u16(), 4464);
    assert_eq!(Number::from(-70000).as_i32(), -70000);
    assert_eq!(Number::from(5).as_isize(), 5);
    assert_eq!(Number::from(5).as_usize(), 5);
    assert_eq!(Number::from(1u64 << 40).as_u32(), 0);
}

#[test]
fn lossy_casts_of_floats_saturate() {
    assert_eq!(float(2.9).as_i8(), 2);
    assert_eq!(float(-2.9).as_i8(), -2);
    assert_eq!(float(1e10).as_i8(), i8::MAX);
    assert_eq!(float(-1e10).as_i8(), i8::MIN);
    assert_eq!(float(-5.0).as_u8(), 0);
    assert_eq!(float(300.7).as_u8(), 255);
    assert_eq!(float(-1e300).as_i64(), i64::MIN);
    assert_eq!(float(1e300).as_u64(), u64::MAX);
    assert_eq!(float(1e300).as_u128(), u128::MAX);
    assert_eq!(float(-1e300).as_i128(), i128::MIN);
    assert_eq!(float(1e30).as_i128(), 1e30 as i128);
    assert_eq!(float(1e30).as_u128(), 1e30 as u128);
    assert_eq!(float(123456.75).as_i32(), 123456);
    assert_eq!(float(0.999).as_u16(), 0);
    assert_eq!(float(5e-324).as_i64(), 0);
    assert_eq!(float(-0.0).as_u32(), 0);
    assert_eq!(float(65535.5).as_u16(), 65535);
    assert_eq!(float(-7.5).as_isize(), -7);
    assert_eq!(float(7.5).as_usize(), 7);
}

#[test]
fn lossy_casts_of_nan_and_infinity() {
    assert_eq!(Number::NaN.as_i8(), 0);
    assert_eq!(Number::NaN.as_u64(), 0);
    assert_eq!(Number::NaN.as_i128(), 0);
    assert_eq!(Number::Inf { negative: false }.as_i8(), i8::MAX);
    assert_eq!(Number::Inf { negative: true }.as_i8(), i8::MIN);
    assert_eq!(Number::Inf { negative: true }.as_u8(), 0);
    assert_eq!(Number::Inf { negative: false }.as_u128(), u128::MAX);
    assert_eq!(Number::Inf { negative: true }.as_i64(), i64::MIN);
    assert_eq!(Number::Inf { negative: false }.as_usize(), usize::MAX);
    assert_eq!(Number::Inf { negative: true }.as_isize(), isize::MIN);
}

#[test]
fn round_trip_every_width() {
    for v in [i8::MIN, -1, 0, 1, i8::MAX] {
        assert_eq!(Number::from(v).as_i8_exact(), Some(v));
        assert_eq!(Number::from(v).get_i8(), Some(v));
    }
    for v in [i16::MIN, -300, 0, 300, i16::MAX] {
        assert_eq!(Number::from(v).as_i16_exact(), Some(v));
    }
    for v in [i32::MIN, -70000, 0, 70000, i32::MAX] {
        assert_eq!(Number::from(v).as_i32_exact(), Some(v));
    }
    for v in [i64::MIN, -1, 0, i64::MAX] {
        assert_eq!(Number::from(v).as_i64_exact(), Some(v));
        assert_eq!(Number::from(v).get_i64(), Some(v));
    }
    for v in [isize::MIN, 0, isize::MAX] {
        assert_eq!(Number::from(v).as_isize_exact(), Some(v));
    }
    for v in [0u8, 7, u8::MAX] {
        assert_eq!(Number::from(v).as_u8_exact(), Some(v));
    }
    for v in [0u16, u16::MAX] {
        assert_eq!(Number::from(v).as_u16_exact(), Some(v));
    }
    for v in [0u32, u32::MAX] {
        assert_eq!(Number::from(v).as_u32_exact(), Some(v));
    }
    for v in [0u64, u64::MAX] {
        assert_eq!(Number::from(v).as_u64_exact(), Some(v));
    }
    for v in [0usize, usize::MAX] {
        assert_eq!(Number::from(v).as_usize_exact(), Some(v));
    }
}

#[test]
fn fits_agrees_with_get_and_exact() {
    let samples = [
        Number::from(i64::MIN),
        Number::from(-129),
        Number::from(-1),
        Number::from(0),
        Number::from(255),
        Number::from(65536),
        Number::from(u64::MAX),
        Number::NegInt(0),
    ];
    for n in samples {
        assert_eq!(n.fits_in_i8(), n.get_i8().is_some());
        assert_eq!(n.fits_in_i8(), n.as_i8_exact().is_some());
        assert_eq!(n.fits_in_u8(), n.get_u8().is_some());
        assert_eq!(n.fits_in_u16(), n.as_u16_exact().is_some());
        assert_eq!(n.fits_in_i32(), n.get_i32().is_some());
        assert_eq!(n.fits_in_i64(), n.as_i64_exact().is_some());
        assert_eq!(n.fits_in_u64(), n.get_u64().is_some());
        assert_eq!(n.fits_in_i128(), n.as_i128_exact().is_some());
        assert_eq!(n.fits_in_u128(), n.get_u128().is_some());
    }
}

#[test]
fn boundary_integers() {
    let min = Number::NegInt(0);
    assert_eq!(min.as_i128_exact(), Some(-(1i128 << 64)));
    assert!(!min.fits_in_i64());
    assert!(min.is_negative());
    let max = Number::from(u64::MAX);
    assert_eq!(max, Number::PosInt(u64::MAX));
    assert_eq!(max.as_u64_exact(), Some(u64::MAX));
    assert_eq!(max.as_i128_exact(), Some((1i128 << 64) - 1));
    assert!(!Number::PosInt(i64::MAX as u64 + 1).fits_in_i64());
    assert!(Number::PosInt(i64::MAX as u64 + 1).fits_in_u64());
    assert!(!Number::NegInt(i64::MIN as u64 - 1).fits_in_i64());
    assert_eq!(Number::from(i64::MIN), Number::NegInt(i64::MIN as u64));
    assert_eq!(Number::from(-1i8), Number::NegInt(u64::MAX));
}

#[test]
fn nan_and_zero_identity() {
    assert_eq!(Number::NaN, Number::NaN);
    let a = float(f64::NAN);
    let b = float(f64::from_bits(0x7ff0_0000_0000_0001));
    let c = float(-f64::NAN);
    assert_eq!(a, b);
    assert_eq!(hash_of(&a), hash_of(&b));
    assert_eq!(hash_of(&a), hash_of(&c));
    let pz = float(0.0);
    let nz = float(-0.0);
    assert_eq!(pz, nz);
    assert_eq!(hash_of(&pz), hash_of(&nz));
    assert_eq!(pz.hash_words(), nz.hash_words());
    assert_ne!(float(1.0), float(-1.0));
    assert_eq!(float(1.5), float(1.5));
    assert_eq!(Number::Inf { negative: true }, float(f64::NEG_INFINITY));
    assert_ne!(Number::Inf { negative: true }, Number::Inf { negative: false });
}

#[test]
fn integers_and_floats_never_equal() {
    assert_ne!(Number::from(1i64), float(1.0));
    assert_ne!(Number::from(0), float(0.0));
    assert_ne!(float(-3.0), Number::from(-3));
    assert_ne!(Number::PosInt(5), Number::NegInt(5));
}
