use twic::value::{Number, Value};

fn float(x: f64) -> Number {
    Number::from_f64_bits(x.to_bits())
}

#[test]
fn numbers_compare_with_integers() {
    assert!(Number::from(5) == 5i32);
    assert!(5u8 == Number::from(5));
    assert!(Number::from(-1) == -1i64);
    assert!(Number::from(-1) != u64::MAX);
    assert!(Number::NegInt(0) == -(1i128 << 64));
    assert!(float(3.0) == 3i32);
    assert!(float(3.5) != 3i32);
    assert!(Number::from(300) != 44u8);
    assert!(Number::NaN != 0i32);
    assert!(u128::MAX != Number::from(u64::MAX));
}

#[test]
fn values_compare_with_primitives() {
    assert!(Value::null() == ());
    assert!(() == Value::null());
    assert!(Value::from(false) != ());
    assert!(Value::from(true) == true);
    assert!(false != Value::from(true));
    assert!(Value::from(7) == 7i64);
    assert!(7usize == Value::from(7u8));
    assert!(Value::from(7) != 8i64);
    assert!(Value::from("abc") == *"abc");
    assert!(Value::string(String::from("abc")) == String::from("abc"));
    assert!(String::from("ab") != Value::from("abc"));
    assert!(*"é" == Value::from("é"));
    assert!(Value::from(1) != *"1");
}

#[test]
fn option_converts_to_value() {
    assert!(Value::from(Some(3u16)) == 3u16);
    assert!(Value::from(None::<bool>).is_null());
    assert!(Value::from(Some(true)) == true);
}
