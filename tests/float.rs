use twic::value::number::utils::{f64_to_f32_lossless, u64_to_f32_lossless, u64_to_f64_lossless};
use twic::value::Number;

fn float(x: f64) -> Number {
    Number::from_f64_bits(x.to_bits())
}

#[test]
fn u64_to_f64_exactness() {
    assert_eq!(u64_to_f64_lossless(0), Some(0.0f64.to_bits()));
    assert_eq!(u64_to_f64_lossless(1), Some(1.0f64.to_bits()));
    assert_eq!(u64_to_f64_lossless(42), Some(42.0f64.to_bits()));
    assert_eq!(u64_to_f64_lossless(1 << 53), Some(9007199254740992.0f64.to_bits()));
    assert_eq!(u64_to_f64_lossless((1 << 53) + 1), None);
    assert_eq!(u64_to_f64_lossless((1 << 53) + 2), Some(9007199254740994.0f64.to_bits()));
    assert_eq!(u64_to_f64_lossless(u64::MAX), None);
    assert_eq!(u64_to_f64_lossless(1 << 63), Some(9223372036854775808.0f64.to_bits()));
    for i in 0..64 {
        assert_eq!(u64_to_f64_lossless(1u64 << i), Some(((1u64 << i) as f64).to_bits()));
    }
}

#[test]
fn u64_to_f32_exactness() {
    assert_eq!(u64_to_f32_lossless(0), Some(0.0f32.to_bits()));
    assert_eq!(u64_to_f32_lossless(3), Some(3.0f32.to_bits()));
    assert_eq!(u64_to_f32_lossless(1 << 24), Some(16777216.0f32.to_bits()));
    assert_eq!(u64_to_f32_lossless((1 << 24) + 1), None);
    assert_eq!(u64_to_f32_lossless((1 << 24) + 2), Some(16777218.0f32.to_bits()));
    assert_eq!(u64_to_f32_lossless(u32::MAX as u64), None);
    assert_eq!(u64_to_f32_lossless(0xFFFF_FF00_0000_0000), Some((0xFFFF_FF00_0000_0000u64 as f32).to_bits()));
}

#[test]
fn f64_to_f32_exactness() {
    assert_eq!(f64_to_f32_lossless(1.0f64.to_bits()), Some(1.0f32.to_bits()));
    assert_eq!(f64_to_f32_lossless(0.5f64.to_bits()), Some(0.5f32.to_bits()));
    assert_eq!(f64_to_f32_lossless((-0.0f64).to_bits()), Some((-0.0f32).to_bits()));
    assert_eq!(f64_to_f32_lossless(0.1f64.to_bits()), None);
    assert_eq!(f64_to_f32_lossless(1e100f64.to_bits()), None);
    assert_eq!(f64_to_f32_lossless((f32::MAX as f64).to_bits()), Some(f32::MAX.to_bits()));
    assert_eq!(f64_to_f32_lossless((f32::MIN_POSITIVE as f64).to_bits()), Some(f32::MIN_POSITIVE.to_bits()));
    let tiny = f32::from_bits(1);
    assert_eq!(f64_to_f32_lossless((tiny as f64).to_bits()), Some(1));
    assert_eq!(f64_to_f32_lossless((tiny as f64 / 2.0).to_bits()), None);
    let sub = f32::from_bits(0x0040_0001);
    assert_eq!(f64_to_f32_lossless((-(sub as f64)).to_bits()), Some((-sub).to_bits()));
    assert_eq!(f64_to_f32_lossless(5e-324f64.to_bits()), None);
    assert_eq!(f64_to_f32_lossless((f32::MAX as f64 * 2.0).to_bits()), None);
}

#[test]
fn float_fits_and_get() {
    assert!(float(1.0).fits_in_f32());
    assert!(!float(1e100).fits_in_f32());
    assert!(Number::NaN.fits_in_f32());
    assert!(Number::Inf { negative: true }.fits_in_f32());
    assert!(!Number::from(1).fits_in_f32());
    assert!(float(1.0).fits_in_f64());
    assert!(float(f64::NAN).fits_in_f64());
    assert!(float(f64::INFINITY).fits_in_f64());
    assert!(!Number::from(1u64).fits_in_f64());

    assert_eq!(float(2.5).get_f64(), Some(2.5f64.to_bits()));
    assert_eq!(Number::from(2).get_f64(), None);
    assert!(f64::from_bits(Number::NaN.get_f64().unwrap()).is_nan());
    assert_eq!(Number::Inf { negative: true }.get_f64(), Some(f64::NEG_INFINITY.to_bits()));
    assert_eq!(float(2.5).get_f32(), Some(2.5f32.to_bits()));
    assert_eq!(float(0.1).get_f32(), None);
    assert!(f32::from_bits(Number::NaN.get_f32().unwrap()).is_nan());
    assert_eq!(Number::Inf { negative: false }.get_f32(), Some(f32::INFINITY.to_bits()));
    assert_eq!(Number::from(2).get_f32(), None);
}

#[test]
fn exact_floats_from_integers() {
    assert_eq!(Number::from(3).as_f64_exact(), Some(3.0f64.to_bits()));
    assert_eq!(Number::from(-3).as_f64_exact(), Some((-3.0f64).to_bits()));
    assert_eq!(Number::from(0).as_f64_exact(), Some(0.0f64.to_bits()));
    assert_eq!(Number::from(u64::MAX).as_f64_exact(), None);
    assert_eq!(Number::from(i64::MIN).as_f64_exact(), Some((i64::MIN as f64).to_bits()));
    assert_eq!(Number::from(i64::MIN + 1).as_f64_exact(), None);
    assert_eq!(Number::NegInt(0).as_f64_exact(), Some((-18446744073709551616.0f64).to_bits()));
    assert_eq!(Number::NegInt(0).as_f32_exact(), Some((-18446744073709551616.0f32).to_bits()));
    assert_eq!(Number::from(16777217).as_f32_exact(), None);
    assert_eq!(Number::from(-16777216).as_f32_exact(), Some((-16777216.0f32).to_bits()));
    assert_eq!(float(0.1).as_f32_exact(), None);
    assert_eq!(float(0.25).as_f32_exact(), Some(0.25f32.to_bits()));
    assert_eq!(float(0.1).as_f64_exact(), Some(0.1f64.to_bits()));
    assert_eq!(Number::NaN.as_f32_exact(), None);
    assert_eq!(Number::NaN.as_f64_exact(), None);
    assert_eq!(Number::Inf { negative: true }.as_f64_exact(), None);
    assert_eq!(Number::Inf { negative: false }.as_f64_exact(), None);
    assert_eq!(Number::Inf { negative: false }.as_f32_exact(), None);
}

#[test]
fn rounding_casts_match_rust() {
    let ints: [i128; 14] = [
        0,
        1,
        -1,
        (1 << 53) + 1,
        (1 << 53) + 3,
        -((1 << 53) + 1),
        (1 << 24) + 1,
        (1 << 24) + 3,
        u64::MAX as i128,
        i64::MIN as i128,
        -(1i128 << 64),
        -(1i128 << 64) + 1,
        0x0123_4567_89ab_cdef,
        -0x7fff_ffff_ffff_fc01,
    ];
    for v in ints {
        let n = if v >= 0 {
            Number::PosInt(v as u64)
        } else {
            Number::NegInt((v + (1i128 << 64)) as u64)
        };
        assert_eq!(n.as_f64(), (v as f64).to_bits(), "f64 of {}", v);
        assert_eq!(n.as_f32(), (v as f32).to_bits(), "f32 of {}", v);
    }
}

#[test]
fn double_to_single_rounding_matches_rust() {
    let xs: [f64; 16] = [
        0.0,
        -0.0,
        0.1,
        -2.5,
        1.0000000596046448,
        1.0000001788139343,
        3.4028235677973366e38,
        3.4028234663852886e38,
        -1e39,
        1e-45,
        7e-46,
        1.401298464324817e-45,
        1.1754942807573643e-38,
        5e-324,
        123456789.123,
        f32::MAX as f64 * 1.0000000001,
    ];
    for x in xs {
        assert_eq!(float(x).as_f32(), (x as f32).to_bits(), "f32 of {:e}", x);
        assert_eq!(float(x).as_f64(), x.to_bits());
    }
    assert!(f32::from_bits(Number::NaN.as_f32()).is_nan());
    assert_eq!(Number::Inf { negative: true }.as_f32(), f32::NEG_INFINITY.to_bits());
    assert_eq!(Number::Inf { negative: false }.as_f64(), f64::INFINITY.to_bits());
}

#[test]
fn double_to_single_rounding_sweep() {
    let mut bits: u64 = 0x3690_0000_0000_0000;
    while bits < 0x47f0_0000_0000_0000 {
        let x = f64::from_bits(bits);
        assert_eq!(float(x).as_f32(), (x as f32).to_bits(), "bits {:x}", bits);
        assert_eq!(float(-x).as_f32(), (-x as f32).to_bits());
        bits += 0x0000_3c4f_1d2a_9b37;
    }
}
