//! Round trips and resolution rules of the typed value codec.

use psqlpy::{decode, encode, DynamicValue, ErrorKind, JsonValue, PgType};

fn roundtrip(v: DynamicValue) -> DynamicValue {
    let p = encode(&v, None).expect("encodable");
    let oid = p.ty.oid();
    match &p.data {
        Some(b) => decode(oid, Some(b.as_slice())).expect("decodable"),
        None => decode(oid, None).expect("decodable"),
    }
}

#[test]
fn roundtrip_smallint_bounds() {
    assert!(matches!(
        roundtrip(DynamicValue::SmallInt(i16::MIN)),
        DynamicValue::SmallInt(x) if x == i16::MIN
    ));
    assert!(matches!(
        roundtrip(DynamicValue::SmallInt(i16::MAX)),
        DynamicValue::SmallInt(x) if x == i16::MAX
    ));
}

#[test]
fn roundtrip_integer_bounds() {
    assert!(matches!(
        roundtrip(DynamicValue::Integer(i32::MIN)),
        DynamicValue::Integer(x) if x == i32::MIN
    ));
    assert!(matches!(
        roundtrip(DynamicValue::Integer(i32::MAX)),
        DynamicValue::Integer(x) if x == i32::MAX
    ));
}

#[test]
fn roundtrip_bigint_bounds() {
    assert!(matches!(
        roundtrip(DynamicValue::BigInt(i64::MIN)),
        DynamicValue::BigInt(x) if x == i64::MIN
    ));
    assert!(matches!(
        roundtrip(DynamicValue::BigInt(i64::MAX)),
        DynamicValue::BigInt(x) if x == i64::MAX
    ));
}

#[test]
fn native_int_defaults_to_widest_width() {
    let p = encode(&DynamicValue::Int(5), None).unwrap();
    assert_eq!(p.ty, PgType::Int8);
    assert_eq!(p.ty.oid(), 20);
    assert!(matches!(roundtrip(DynamicValue::Int(5)), DynamicValue::BigInt(5)));
}

#[test]
fn roundtrip_bool() {
    assert!(matches!(roundtrip(DynamicValue::Boolean(true)), DynamicValue::Boolean(true)));
    assert!(matches!(roundtrip(DynamicValue::Boolean(false)), DynamicValue::Boolean(false)));
}

#[test]
fn roundtrip_text_empty_and_long() {
    assert!(matches!(
        roundtrip(DynamicValue::Str(String::new())),
        DynamicValue::Str(s) if s.is_empty()
    ));
    let long: String = "päyload-\u{1F4A1}-".repeat(100);
    let expected = long.clone();
    assert!(matches!(
        roundtrip(DynamicValue::Str(long)),
        DynamicValue::Str(s) if s == expected
    ));
}

#[test]
fn roundtrip_varchar() {
    assert!(matches!(
        roundtrip(DynamicValue::VarChar(String::from("abc"))),
        DynamicValue::VarChar(s) if s == "abc"
    ));
}

#[test]
fn roundtrip_bytea() {
    let payload = vec![0u8, 1, 2, 255, 128];
    assert!(matches!(
        roundtrip(DynamicValue::Bytes(payload.clone())),
        DynamicValue::Bytes(b) if b == payload
    ));
}

#[test]
fn roundtrip_uuid_nil_and_arbitrary() {
    assert!(matches!(roundtrip(DynamicValue::Uuid(0)), DynamicValue::Uuid(0)));
    let value = 0x550e8400_e29b_41d4_a716_446655440000u128;
    assert!(matches!(roundtrip(DynamicValue::Uuid(value)), DynamicValue::Uuid(v) if v == value));
    let p = encode(&DynamicValue::Uuid(value), None).unwrap();
    assert_eq!(p.ty.oid(), 2950);
    assert_eq!(p.data.as_ref().unwrap().len(), 16);
}

#[test]
fn roundtrip_macaddr() {
    let six = 0xAABBCCDDEEFFu64;
    assert!(matches!(roundtrip(DynamicValue::MacAddr6(six)), DynamicValue::MacAddr6(m) if m == six));
    let eight = 0x1122334455667788u64;
    assert!(matches!(
        roundtrip(DynamicValue::MacAddr8(eight)),
        DynamicValue::MacAddr8(m) if m == eight
    ));
}

fn sample_json() -> JsonValue {
    JsonValue::Obj(vec![
        (
            String::from("items"),
            JsonValue::Arr(vec![
                JsonValue::Int(1),
                JsonValue::Int(-2),
                JsonValue::Obj(vec![(String::from("inner"), JsonValue::Null)]),
            ]),
        ),
        (String::from("quote\"key"), JsonValue::Str(String::from("va\\lue\n"))),
        (String::from("flag"), JsonValue::Bool(true)),
        (String::from("empty_obj"), JsonValue::Obj(vec![])),
        (String::from("empty_arr"), JsonValue::Arr(vec![])),
    ])
}

#[test]
fn roundtrip_json_nested() {
    let v = DynamicValue::Json(sample_json());
    let expected = psqlpy::json_string(&sample_json());
    match roundtrip(v) {
        DynamicValue::Json(j) => assert_eq!(psqlpy::json_string(&j), expected),
        other => panic!("expected a JSON value, got {:?}", other),
    }
}

#[test]
fn roundtrip_json_empty() {
    match roundtrip(DynamicValue::Json(JsonValue::Obj(vec![]))) {
        DynamicValue::Json(j) => assert_eq!(psqlpy::json_string(&j), "{}"),
        other => panic!("expected a JSON value, got {:?}", other),
    }
}

#[test]
fn roundtrip_jsonb_version_byte() {
    let v = DynamicValue::Jsonb(sample_json());
    let p = encode(&v, None).unwrap();
    assert_eq!(p.ty.oid(), 3802);
    let data = p.data.as_ref().unwrap();
    assert_eq!(data[0], 1);
    match decode(3802, Some(data.as_slice())).unwrap() {
        DynamicValue::Jsonb(j) => {
            assert_eq!(psqlpy::json_string(&j), psqlpy::json_string(&sample_json()))
        }
        other => panic!("expected a JSONB value, got {:?}", other),
    }
}

#[test]
fn json_canonical_text_cross_checked() {
    let text = psqlpy::json_string(&sample_json());
    let reparsed: serde_json::Value = serde_json::from_str(&text).expect("canonical text is JSON");
    assert_eq!(reparsed["items"][0], serde_json::Value::from(1));
    assert_eq!(reparsed["items"][2]["inner"], serde_json::Value::Null);
    assert_eq!(reparsed["quote\"key"], serde_json::Value::from("va\\lue\n"));
    assert_eq!(reparsed["flag"], serde_json::Value::from(true));
}

#[test]
fn parse_json_inverts_printer() {
    let text = psqlpy::json_string(&sample_json());
    let parsed = psqlpy::parse_json(&text).expect("printer output parses");
    assert_eq!(psqlpy::json_string(&parsed), text);
}

#[test]
fn parse_json_rejects_trailing_garbage() {
    assert!(psqlpy::parse_json("nullx").is_none());
    assert!(psqlpy::parse_json("").is_none());
}

#[test]
fn sequences_and_mappings_infer_json_not_jsonb() {
    let v = DynamicValue::Sequence(vec![
        DynamicValue::Int(1),
        DynamicValue::Str(String::from("two")),
        DynamicValue::Null,
    ]);
    let p = encode(&v, None).unwrap();
    assert_eq!(p.ty, PgType::Json);
    let text = String::from_utf8(p.data.unwrap()).unwrap();
    assert_eq!(text, "[1,\"two\",null]");

    let m = DynamicValue::Mapping(vec![(String::from("k"), DynamicValue::Boolean(false))]);
    let p2 = encode(&m, None).unwrap();
    assert_eq!(p2.ty, PgType::Json);
    let text2 = String::from_utf8(p2.data.unwrap()).unwrap();
    assert_eq!(text2, "{\"k\":false}");
}

#[test]
fn explicit_tag_wins_over_inference() {
    let p = encode(&DynamicValue::Int(5), Some(PgType::Int2)).unwrap();
    assert_eq!(p.ty, PgType::Int2);
    assert_eq!(p.data.as_ref().unwrap().len(), 2);
    match decode(21, Some(p.data.as_ref().unwrap().as_slice())).unwrap() {
        DynamicValue::SmallInt(5) => {}
        other => panic!("expected SmallInt(5), got {:?}", other),
    }
}

#[test]
fn out_of_range_tagged_int_is_conversion_error() {
    let e = encode(&DynamicValue::Int(300000), Some(PgType::Int2)).unwrap_err();
    assert_eq!(e.kind(), ErrorKind::Conversion);
}

#[test]
fn mismatched_tag_is_conversion_error() {
    let e = encode(&DynamicValue::Bytes(vec![1]), Some(PgType::Bool)).unwrap_err();
    assert_eq!(e.kind(), ErrorKind::Conversion);
    let e2 = encode(&DynamicValue::Uuid(7), Some(PgType::Json)).unwrap_err();
    assert_eq!(e2.kind(), ErrorKind::Conversion);
}

#[test]
fn unknown_oid_is_hard_error() {
    let e = decode(999, Some(&[1, 2, 3])).unwrap_err();
    assert_eq!(e.kind(), ErrorKind::Conversion);
}

#[test]
fn malformed_datum_is_conversion_error() {
    assert_eq!(decode(21, Some(&[1])).unwrap_err().kind(), ErrorKind::Conversion);
    assert_eq!(decode(16, Some(&[7])).unwrap_err().kind(), ErrorKind::Conversion);
    assert_eq!(decode(25, Some(&[0xFF, 0xFE])).unwrap_err().kind(), ErrorKind::Conversion);
}

#[test]
fn null_datum_decodes_to_null() {
    assert!(matches!(decode(25, None).unwrap(), DynamicValue::Null));
}

#[test]
fn null_without_tag_has_unspecified_type() {
    let p = encode(&DynamicValue::Null, None).unwrap();
    assert_eq!(p.ty, PgType::Unspecified);
    assert_eq!(p.ty.oid(), 0);
    assert!(p.data.is_none());
}

#[test]
fn int2_wire_layout_is_big_endian() {
    let p = encode(&DynamicValue::SmallInt(0x1234), None).unwrap();
    assert_eq!(p.data.unwrap(), vec![0x12, 0x34]);
    let n = encode(&DynamicValue::SmallInt(-1), None).unwrap();
    assert_eq!(n.data.unwrap(), vec![0xFF, 0xFF]);
}

#[test]
fn oid_mapping_is_fixed() {
    assert_eq!(PgType::Bool.oid(), 16);
    assert_eq!(PgType::Bytea.oid(), 17);
    assert_eq!(PgType::Int8.oid(), 20);
    assert_eq!(PgType::Int2.oid(), 21);
    assert_eq!(PgType::Int4.oid(), 23);
    assert_eq!(PgType::Text.oid(), 25);
    assert_eq!(PgType::VarChar.oid(), 1043);
    assert_eq!(PgType::Uuid.oid(), 2950);
    assert_eq!(PgType::Json.oid(), 114);
    assert_eq!(PgType::Jsonb.oid(), 3802);
    assert_eq!(PgType::MacAddr6.oid(), 829);
    assert_eq!(PgType::MacAddr8.oid(), 774);
    assert_eq!(PgType::of_oid(3802), Some(PgType::Jsonb));
    assert_eq!(PgType::of_oid(12345), None);
}

#[test]
fn decode_accepts_server_formatted_json() {
    let text = "{\"a\": 1, \"b\": [1, 2], \"s\": \"x, y\"}";
    let mut data = vec![1u8];
    data.extend_from_slice(text.as_bytes());
    match decode(3802, Some(data.as_slice())).unwrap() {
        DynamicValue::Jsonb(j) => assert_eq!(
            psqlpy::json_string(&j),
            "{\"a\":1,\"b\":[1,2],\"s\":\"x, y\"}"
        ),
        other => panic!("expected a JSONB value, got {:?}", other),
    }
    let spaced = " [1, 2]\n";
    match decode(114, Some(spaced.as_bytes())).unwrap() {
        DynamicValue::Json(j) => assert_eq!(psqlpy::json_string(&j), "[1,2]"),
        other => panic!("expected a JSON value, got {:?}", other),
    }
}

#[test]
fn parse_json_discards_insignificant_whitespace() {
    let parsed = psqlpy::parse_json("{ \"k\" : [ 1 ,\ttrue ] }\r\n").expect("formatted text parses");
    assert_eq!(psqlpy::json_string(&parsed), "{\"k\":[1,true]}");
    let bare = psqlpy::parse_json(" null ").expect("padded scalar parses");
    assert!(matches!(bare, JsonValue::Null));
    assert!(psqlpy::parse_json("nullx").is_none());
}

#[test]
fn control_characters_use_short_escapes() {
    let v = JsonValue::Str(String::from("a\nb\tc\rd\u{8}e\u{c}f\u{1f}g"));
    let text = psqlpy::json_string(&v);
    assert_eq!(text, "\"a\\nb\\tc\\rd\\be\\ff\\u001fg\"");
    let back = psqlpy::parse_json(&text).expect("short escapes parse");
    assert_eq!(psqlpy::json_string(&back), text);
    let reparsed: serde_json::Value = serde_json::from_str(&text).expect("valid JSON");
    assert_eq!(reparsed, serde_json::Value::from("a\nb\tc\rd\u{8}e\u{c}f\u{1f}g"));
}

#[test]
fn roundtrip_text_with_control_characters() {
    let content = String::from("tab\there\nnewline");
    let expected = content.clone();
    assert!(matches!(
        roundtrip(DynamicValue::Str(content)),
        DynamicValue::Str(s) if s == expected
    ));
}

#[test]
fn parse_json_reads_every_scalar_text() {
    assert!(matches!(psqlpy::parse_json("null"), Some(JsonValue::Null)));
    assert!(matches!(psqlpy::parse_json("true"), Some(JsonValue::Bool(true))));
    assert!(matches!(psqlpy::parse_json("false"), Some(JsonValue::Bool(false))));
    assert!(matches!(psqlpy::parse_json("0"), Some(JsonValue::Int(0))));
    assert!(matches!(
        psqlpy::parse_json("-9223372036854775808"),
        Some(JsonValue::Int(i64::MIN))
    ));
    assert!(matches!(
        psqlpy::parse_json("9223372036854775807"),
        Some(JsonValue::Int(i64::MAX))
    ));
}
