//! The explicit wrapper values and their parsers.

use psqlpy::{
    BigInt, DynamicValue, ErrorKind, Integer, JsonValue, PyJSON, PyJSONB, PyMacAddr6, PyMacAddr8,
    PyText, PyUUID, PyVarChar, SmallInt,
};

#[test]
fn integer_wrappers_carry_their_width() {
    assert_eq!(SmallInt::new_class(-5).retrieve_value(), -5);
    assert_eq!(Integer::new_class(70000).retrieve_value(), 70000);
    assert_eq!(BigInt::new_class(1 << 40).retrieve_value(), 1 << 40);
    assert!(matches!(SmallInt::new_class(3).value(), DynamicValue::SmallInt(3)));
    assert!(matches!(Integer::new_class(3).value(), DynamicValue::Integer(3)));
    assert!(matches!(BigInt::new_class(3).value(), DynamicValue::BigInt(3)));
}

#[test]
fn text_wrappers_keep_their_content() {
    let t = PyText::new_pytext(String::from("hello"));
    assert_eq!(t.inner(), "hello");
    assert!(matches!(t.value(), DynamicValue::Text(s) if s == "hello"));
    let v = PyVarChar::new_varchar(String::from("world"));
    assert_eq!(v.inner(), "world");
    assert!(matches!(v.value(), DynamicValue::VarChar(s) if s == "world"));
}

#[test]
fn uuid_nil_parses_to_zero() {
    let u = PyUUID::new_uuid("00000000-0000-0000-0000-000000000000").unwrap();
    assert_eq!(u.inner(), 0);
}

#[test]
fn uuid_hyphenated_parses_to_its_value() {
    let u = PyUUID::new_uuid("550e8400-e29b-41d4-a716-446655440000").unwrap();
    assert_eq!(u.inner(), 0x550e8400_e29b_41d4_a716_446655440000u128);
    let simple = PyUUID::new_uuid("550e8400e29b41d4a716446655440000").unwrap();
    assert_eq!(simple.inner(), u.inner());
}

#[test]
fn invalid_uuid_is_conversion_error() {
    assert_eq!(PyUUID::new_uuid("not-a-uuid").unwrap_err().kind(), ErrorKind::Conversion);
    assert_eq!(PyUUID::new_uuid("").unwrap_err().kind(), ErrorKind::Conversion);
}

#[test]
fn macaddr6_parses_colon_format() {
    let m = PyMacAddr6::new_class("AA:BB:CC:DD:EE:FF").unwrap();
    assert_eq!(m.inner(), 0xAABBCCDDEEFF);
    assert!(matches!(m.value(), DynamicValue::MacAddr6(x) if x == 0xAABBCCDDEEFF));
    assert_eq!(PyMacAddr6::new_class("junk").unwrap_err().kind(), ErrorKind::Conversion);
}

#[test]
fn macaddr8_parses_colon_format() {
    let m = PyMacAddr8::new_class("11:22:33:44:55:66:77:88").unwrap();
    assert_eq!(m.inner(), 0x1122334455667788);
    assert_eq!(PyMacAddr8::new_class("11:22").unwrap_err().kind(), ErrorKind::Conversion);
}

#[test]
fn json_wrappers_accept_the_json_fragment() {
    let value = DynamicValue::Mapping(vec![
        (String::from("n"), DynamicValue::Int(1)),
        (
            String::from("xs"),
            DynamicValue::Sequence(vec![DynamicValue::Null, DynamicValue::Boolean(true)]),
        ),
    ]);
    let j = PyJSON::new_class(&value).unwrap();
    assert_eq!(psqlpy::json_string(j.inner()), "{\"n\":1,\"xs\":[null,true]}");
    let jb = PyJSONB::new_class(&value).unwrap();
    assert_eq!(psqlpy::json_string(jb.inner()), "{\"n\":1,\"xs\":[null,true]}");
}

#[test]
fn json_wrappers_reject_non_json_values() {
    let bad = DynamicValue::Sequence(vec![DynamicValue::Bytes(vec![1, 2])]);
    assert_eq!(PyJSON::new_class(&bad).unwrap_err().kind(), ErrorKind::Conversion);
    assert_eq!(
        PyJSONB::new_class(&DynamicValue::Uuid(1)).unwrap_err().kind(),
        ErrorKind::Conversion
    );
}

#[test]
fn wrapper_values_round_trip_through_the_codec() {
    let json_tree = JsonValue::Arr(vec![JsonValue::Int(7)]);
    let p = psqlpy::encode(&DynamicValue::Json(json_tree), None).unwrap();
    let text = String::from_utf8(p.data.unwrap()).unwrap();
    assert_eq!(text, "[7]");
}
