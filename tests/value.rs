use twic::value::{IndexInto, Number, Value, ValueIndexError, ValueMap};

fn num(v: &Value) -> Option<i64> {
    v.as_number().and_then(|n| n.get_i64())
}

#[test]
fn map_get_missing_then_insert() {
    let mut v = Value::map_empty();
    assert!(v.get("missing").is_none());
    assert_eq!("missing".index_into(&v).err(), Some(ValueIndexError::KeyNotFound));
    let slot = v.get_or_insert("k").unwrap();
    assert!(slot.is_null());
    let got = v.get("k").unwrap();
    assert!(got.is_null());
    assert_eq!(v.as_map().unwrap().len(), 1);
}

#[test]
fn vector_get_or_insert_pads_with_null() {
    let mut v = Value::vector(vec![Value::from(1), Value::from(2)]);
    let slot = v.get_or_insert(4usize).unwrap();
    assert!(slot.is_null());
    *slot = Value::from(5);
    let items = v.as_vector().unwrap();
    assert_eq!(items.len(), 5);
    assert_eq!(num(&items[0]), Some(1));
    assert_eq!(num(&items[1]), Some(2));
    assert!(items[2].is_null());
    assert!(items[3].is_null());
    assert_eq!(num(&items[4]), Some(5));
}

#[test]
fn indexing_a_number_is_not_indexable() {
    let v = Value::number(42);
    assert_eq!(0usize.index_into(&v).err(), Some(ValueIndexError::NotIndexable));
    assert_eq!("a".index_into(&v).err(), Some(ValueIndexError::NotIndexable));
    assert!(v.get(0usize).is_none());
    let mut w = Value::number(42);
    assert!(w.get_or_insert(0usize).is_none());
    assert_eq!(num(&w), Some(42));
}

#[test]
fn indexing_with_the_wrong_kind_is_incompatible() {
    let mut m = Value::map_empty();
    assert_eq!(0usize.index_into(&m).err(), Some(ValueIndexError::IncompatibleIndexType));
    assert_eq!(
        0usize.index_into_or_insert(&mut m).err(),
        Some(ValueIndexError::IncompatibleIndexType)
    );
    let mut v = Value::vector_empty();
    assert_eq!("k".index_into(&v).err(), Some(ValueIndexError::IncompatibleIndexType));
    assert_eq!(
        String::from("k").index_into_mut(&mut v).err(),
        Some(ValueIndexError::IncompatibleIndexType)
    );
    assert!(v.get_or_insert("k").is_none());
    assert_eq!(v.as_vector().unwrap().len(), 0);
}

#[test]
fn vector_out_of_bounds_is_key_not_found() {
    let mut v = Value::vector(vec![Value::from(true)]);
    assert_eq!(1usize.index_into(&v).err(), Some(ValueIndexError::KeyNotFound));
    assert!(v.get_mut(1usize).is_none());
    assert_eq!(v.get(0usize).unwrap().as_boolean(), Some(true));
    *v.get_mut(0usize).unwrap() = Value::from(false);
    assert_eq!(v.get(0usize).unwrap().as_boolean(), Some(false));
}

#[test]
fn operator_style_indexing() {
    let mut m = Value::map_empty();
    assert!(m.index("absent").is_null());
    *m.index_mut("a") = Value::from("x");
    *m.index_mut(&String::from("b")) = Value::from(2u8);
    assert_eq!(m.index("a").as_str(), Some("x"));
    assert_eq!(num(m.index("b")), Some(2));
    let mut v = Value::vector_empty();
    *v.index_mut(2usize) = Value::from(-3);
    assert!(v.index(0usize).is_null());
    assert_eq!(num(v.index(2usize)), Some(-3));
    assert!(v.index(9usize).is_null());
}

#[test]
fn nested_insertion() {
    let mut root = Value::map_empty();
    let inner = root.get_or_insert("list").unwrap();
    *inner = Value::vector_empty();
    *inner.get_or_insert(1usize).unwrap() = Value::string(String::from("hi"));
    let list = root.get("list").unwrap();
    assert_eq!(list.as_vector().unwrap().len(), 2);
    assert_eq!(list.get(1usize).unwrap().as_str(), Some("hi"));
}

#[test]
fn kind_names_and_predicates() {
    let values = [
        Value::null(),
        Value::boolean(true),
        Value::number(1.5f64.to_bits() as i64),
        Value::string(String::from("s")),
        Value::vector_empty(),
        Value::map_empty(),
    ];
    let names = ["null", "boolean", "number", "string", "vector", "map"];
    for (v, name) in values.iter().zip(names) {
        assert_eq!(v.kind_name(), name);
        let flags = [
            v.is_null(),
            v.is_boolean(),
            v.is_number(),
            v.is_string(),
            v.is_vector(),
            v.is_map(),
        ];
        assert_eq!(flags.iter().filter(|f| **f).count(), 1);
    }
}

#[test]
fn typed_accessors() {
    let mut b = Value::from(true);
    assert_eq!(b.as_boolean(), Some(true));
    *b.as_boolean_mut().unwrap() = false;
    assert_eq!(b.as_boolean(), Some(false));
    assert!(b.as_number().is_none());
    assert!(b.as_null().is_none());
    assert_eq!(Value::null().as_null(), Some(()));
    assert_eq!(Value::from(()).as_null(), Some(()));

    let mut n = Value::from(Number::from(7));
    *n.as_number_mut().unwrap() = Number::from(-7);
    assert_eq!(n.as_number().unwrap().get_i8(), Some(-7));

    let mut s = Value::from(String::from("ab"));
    s.as_string_mut().unwrap().push('c');
    assert_eq!(s.as_str(), Some("abc"));
    assert_eq!(s.as_string().unwrap(), "abc");
    assert!(s.as_vector().is_none());

    let mut v = Value::from(vec![Value::null()]);
    v.as_vector_mut().unwrap().push(Value::from(1));
    assert_eq!(v.as_vector().unwrap().len(), 2);

    let mut m = Value::map(ValueMap::new());
    m.as_map_mut().unwrap().insert(String::from("k"), Value::from(1));
    assert_eq!(m.as_map().unwrap().len(), 1);
    assert!(Value::default().is_null());
}

#[test]
fn vector_from_converts_each_item() {
    let v = Value::vector_from(vec![1u8, 2, 3]);
    let items = v.as_vector().unwrap();
    assert_eq!(items.len(), 3);
    assert_eq!(num(&items[2]), Some(3));
    let w = Value::vector_from(vec![true, false]);
    assert_eq!(w.get(1usize).unwrap().as_boolean(), Some(false));
    let e = Value::vector_from(Vec::<bool>::new());
    assert_eq!(e.as_vector().unwrap().len(), 0);
}

#[test]
fn number_constructor_accepts_integers() {
    assert_eq!(Value::number(-5i16).as_number(), Some(Number::from(-5)));
    assert_eq!(Value::from(u64::MAX).as_number(), Some(Number::PosInt(u64::MAX)));
    assert_eq!(Value::from(-1isize).as_number(), Some(Number::NegInt(u64::MAX)));
}

#[test]
fn map_keeps_keys_in_order() {
    let mut m = ValueMap::new();
    assert!(m.is_empty());
    assert!(m.insert(String::from("pear"), Value::from(1)).is_none());
    assert!(m.insert(String::from("apple"), Value::from(2)).is_none());
    assert!(m.insert(String::from("zebra"), Value::from(3)).is_none());
    assert!(m.insert(String::from("Zebra"), Value::from(4)).is_none());
    let replaced = m.insert(String::from("pear"), Value::from(5)).unwrap();
    assert_eq!(num(&replaced), Some(1));
    assert_eq!(m.len(), 4);
    let keys: Vec<&str> = (0..m.len()).map(|i| m.entry(i).0.as_str()).collect();
    assert_eq!(keys, vec!["Zebra", "apple", "pear", "zebra"]);
    assert_eq!(num(m.get("pear").unwrap()), Some(5));
    assert!(m.get("peach").is_none());
    *m.get_mut("apple").unwrap() = Value::from(9);
    assert_eq!(num(m.get("apple").unwrap()), Some(9));
    assert!(m.get_mut("fig").is_none());
    m.get_or_insert_null("banana");
    assert_eq!(m.entry(2).0, "banana");
    assert!(m.entry(2).1.is_null());
}

#[test]
fn map_orders_by_bytes() {
    let mut m = ValueMap::new();
    for k in ["b", "ab", "a", "é", "", "aa"] {
        m.get_or_insert_null(k);
    }
    let keys: Vec<&str> = (0..m.len()).map(|i| m.entry(i).0.as_str()).collect();
    assert_eq!(keys, vec!["", "a", "aa", "ab", "b", "é"]);
}

#[test]
fn map_remove_and_listing() {
    let mut m = ValueMap::new();
    m.insert(String::from("b"), Value::from(2));
    m.insert(String::from("a"), Value::from(1));
    m.insert(String::from("c"), Value::from(3));
    assert!(m.contains_key("b"));
    assert!(!m.contains_key("z"));
    assert_eq!(m.key_list(), vec![String::from("a"), String::from("b"), String::from("c")]);
    assert_eq!(m.key_at(2), "c");
    let removed = m.remove("b").unwrap();
    assert_eq!(num(&removed), Some(2));
    assert!(m.remove("b").is_none());
    assert!(!m.contains_key("b"));
    assert_eq!(m.key_list(), vec![String::from("a"), String::from("c")]);
    assert_eq!(num(m.get("c").unwrap()), Some(3));
    assert_eq!(m.len(), 2);
}

#[test]
fn clone_and_equality_of_trees() {
    let mut root = Value::map_empty();
    *root.index_mut("list") = Value::vector(vec![Value::from(1), Value::from("x")]);
    *root.index_mut("zero") = Value::from(Number::from_f64_bits(0.0f64.to_bits()));
    let copy = root.clone();
    assert!(copy == root);
    let mut other = root.clone();
    *other.index_mut("zero") = Value::from(Number::from_f64_bits((-0.0f64).to_bits()));
    assert!(other == root);
    *other.index_mut("list").index_mut(1usize) = Value::from("y");
    assert!(other != root);
    assert!(Value::from(1) != Value::from(Number::from_f64_bits(1.0f64.to_bits())));
    assert!(Value::null() == Value::null());
    assert!(Value::vector_empty() != Value::map_empty());
    let m = root.as_map().unwrap().clone();
    assert!(m == *root.as_map().unwrap());
}

#[test]
fn vector_clone_from_copies_each_item() {
    let items = [1u8, 2, 3];
    let v = Value::vector_clone_from(&items[..]);
    assert_eq!(v.as_vector().unwrap().len(), 3);
    assert!(v == Value::vector(vec![Value::from(1u8), Value::from(2u8), Value::from(3u8)]));
    let words = vec![String::from("a"), String::from("b")];
    let w = Value::vector_clone_from(&words);
    assert_eq!(w.get(1usize).unwrap().as_str(), Some("b"));
    assert_eq!(words.len(), 2);
}
