use twic::value::number::utils::{
    f64_to_u128_no_sig_lossless, f64_to_u64_no_sig_lossless, from_inf, neg_i65_to_i128,
};

fn u64_of(x: f64) -> Option<u64> {
    f64_to_u64_no_sig_lossless(x.to_bits())
}

fn u128_of(x: f64) -> Option<u128> {
    f64_to_u128_no_sig_lossless(x.to_bits())
}

#[test]
fn test_f64_to_u64_lossless() {
    assert_eq!(u64_of(0.0), Some(0));
    assert_eq!(u64_of(1.0), Some(1));
    assert_eq!(u64_of(42.0), Some(42));
    assert_eq!(u64_of(1.5), None);

    let two_pow_52_f = 2.0_f64.powi(52);
    let two_pow_52_i = 1u64 << 52;
    assert_eq!(u64_of(two_pow_52_f), Some(two_pow_52_i));
    assert_eq!(u64_of(two_pow_52_f + 1.0), Some(two_pow_52_i + 1));
    assert_eq!(u64_of(two_pow_52_f + 2.0), Some(two_pow_52_i + 2));

    let two_pow_53_f = 2.0_f64.powi(53);
    let two_pow_53_i = 1u64 << 53;
    assert_eq!(u64_of(two_pow_53_f), Some(two_pow_53_i));
    assert_eq!(u64_of(two_pow_53_f + 1.5), Some(two_pow_53_i + 2));

    for i in 0..64 {
        let val = 1u64 << i;
        let val_f = val as f64;
        assert_eq!(u64_of(val_f), Some(val));
    }

    assert!(u64_of(f64::NAN).is_none());
    assert!(u64_of(f64::INFINITY).is_none());
    assert!(u64_of(f64::NEG_INFINITY).is_none());
    assert!(u64_of(2.0f64.powi(64)).is_none());
}

#[test]
fn test_f64_to_u128_lossless() {
    assert_eq!(u128_of(0.0), Some(0));
    assert_eq!(u128_of(1.0), Some(1));
    assert_eq!(u128_of(42.0), Some(42));
    assert_eq!(u128_of(1.5), None);

    let two_pow_52_f = 2.0_f64.powi(52);
    let two_pow_52_i = 1u128 << 52;
    assert_eq!(u128_of(two_pow_52_f), Some(two_pow_52_i));
    assert_eq!(u128_of(two_pow_52_f + 1.0), Some(two_pow_52_i + 1));
    assert_eq!(u128_of(two_pow_52_f + 2.0), Some(two_pow_52_i + 2));

    let two_pow_53_f = 2.0_f64.powi(53);
    let two_pow_53_i = 1u128 << 53;
    assert_eq!(u128_of(two_pow_53_f), Some(two_pow_53_i));
    assert_eq!(u128_of(two_pow_53_f + 1.5), Some(two_pow_53_i + 2));

    for i in 0..128 {
        let val = 1u128 << i;
        let val_f = val as f64;
        assert_eq!(u128_of(val_f), Some(val));
    }

    assert!(u128_of(f64::NAN).is_none());
    assert!(u128_of(f64::INFINITY).is_none());
    assert!(u128_of(f64::NEG_INFINITY).is_none());
    assert!(u128_of(2.0f64.powi(128)).is_none());
}

#[test]
fn lossless_ignores_sign_and_rejects_fractions() {
    assert_eq!(u64_of(-42.0), Some(42));
    assert_eq!(u64_of(-0.0), Some(0));
    assert_eq!(u64_of(0.5), None);
    assert_eq!(u64_of(f64::MIN_POSITIVE), None);
    assert_eq!(u64_of(5e-324), None);
    assert_eq!(u64_of(18446744073709549568.0), Some(18446744073709549568));
    assert_eq!(u128_of(-3.0), Some(3));
    assert_eq!(u128_of(2.0f64.powi(127)), Some(1u128 << 127));
    assert_eq!(u128_of(1e300), None);
}

#[test]
fn from_inf_gives_the_bounds() {
    assert_eq!(from_inf::<i8>(true), i8::MIN);
    assert_eq!(from_inf::<i8>(false), i8::MAX);
    assert_eq!(from_inf::<u32>(true), 0);
    assert_eq!(from_inf::<u32>(false), u32::MAX);
    assert_eq!(from_inf::<i128>(true), i128::MIN);
    assert_eq!(from_inf::<u128>(false), u128::MAX);
    assert_eq!(from_inf::<usize>(false), usize::MAX);
    assert_eq!(from_inf::<isize>(true), isize::MIN);
}

#[test]
fn neg_i65_sign_extends() {
    assert_eq!(neg_i65_to_i128(u64::MAX), -1);
    assert_eq!(neg_i65_to_i128(0), -(1i128 << 64));
    assert_eq!(neg_i65_to_i128(i64::MIN as u64), i64::MIN as i128);
    assert_eq!(neg_i65_to_i128(u64::MAX - 41), -42);
}
