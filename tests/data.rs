use colindex::data::Data;
use colindex::key::Key;
use std::cmp::Ordering;

#[test]
fn test_string_data_creation() {
    let string_val: &str = "My String Test";
    let data = Data::new_from_str(string_val);
    assert_eq!(data, Data::StringVal(string_val.to_string()));
}

#[test]
fn test_number_data_creation() {
    let number_val: i64 = 999;
    let data = Data::new_from_number(number_val);
    assert_eq!(data, Data::NumberVal(number_val));
}

#[test]
fn test_convertion_for_byte_array() {
    let string_val: &str = "My String Test";
    let number_val: i64 = 999;
    let number_data = Data::new_from_number(number_val);
    let str_data = Data::new_from_str(string_val);
    let str_data_as_vec: Vec<u8> = str_data.into();
    let number_data_as_vec: Vec<u8> = number_data.into();
    assert_eq!(str_data_as_vec, Vec::from(string_val));
    assert_eq!(number_data_as_vec, Vec::from(number_val.to_be_bytes()));
}

#[test]
fn integers_compare_numerically() {
    let a = Data::new_from_number(-5);
    let b = Data::new_from_number(3);
    assert_eq!(a.compare(&b), Ordering::Less);
    assert_eq!(b.compare(&a), Ordering::Greater);
    assert_eq!(b.compare(&Data::new_from_number(3)), Ordering::Equal);
    assert!(a < b);
}

#[test]
fn texts_compare_bytewise() {
    let upper = Data::new_from_str("String Z");
    let lower = Data::new_from_str("q");
    let prefix = Data::new_from_str("String");
    assert_eq!(upper.compare(&lower), Ordering::Less);
    assert_eq!(prefix.compare(&upper), Ordering::Less);
    assert_eq!(lower.compare(&Data::new_from_str("q")), Ordering::Equal);
    assert_eq!(Data::new_from_str("").compare(&prefix), Ordering::Less);
}

#[test]
fn texts_sort_before_integers() {
    let text = Data::new_from_str("999");
    let number = Data::new_from_number(-1);
    assert_eq!(text.compare(&number), Ordering::Less);
    assert_eq!(number.compare(&text), Ordering::Greater);
    assert_ne!(text, Data::new_from_number(999));
}

#[test]
fn negative_integer_bytes() {
    assert_eq!(Data::new_from_number(-1).to_bytes(), vec![0xff; 8]);
    assert_eq!(Data::new_from_number(258).to_bytes(), vec![0, 0, 0, 0, 0, 0, 1, 2]);
    assert_eq!(Data::new_from_str("").to_bytes(), Vec::<u8>::new());
    assert_eq!(Data::new_from_str("é").to_bytes(), vec![0xc3, 0xa9]);
}

#[test]
fn key_from_integer_round_trips() {
    for n in [0i64, 1, -1, 75, i64::MAX, i64::MIN, 0x0102030405060708] {
        let key = Key::from_integer(n);
        let bytes = key.to_bytes();
        assert_eq!(bytes.len(), 8);
        let mut arr = [0u8; 8];
        arr.copy_from_slice(&bytes);
        assert_eq!(i64::from_be_bytes(arr), n);
        assert_eq!(key, Key::from(n));
    }
}

#[test]
fn keys_order_bytewise() {
    let k2 = Key::from_integer(2);
    let k10 = Key::from_integer(10);
    let neg = Key::from_integer(-1);
    assert_eq!(k2.compare(&k10), Ordering::Less);
    assert!(k2 < k10);
    assert_eq!(neg.compare(&k10), Ordering::Greater);
    assert_eq!(k10.compare(&Key::from_integer(10)), Ordering::Equal);
    assert_eq!(k10.as_ref(), &[0, 0, 0, 0, 0, 0, 0, 10][..]);
}

#[test]
fn cells_and_keys_render() {
    assert_eq!(Data::new_from_number(-42).render(), "-42");
    assert_eq!(Data::new_from_str("a\"b").render(), "\"a\\\"b\"");
    assert_eq!(Key::from_integer(1).render(), "[0, 0, 0, 0, 0, 0, 0, 1]");
}
