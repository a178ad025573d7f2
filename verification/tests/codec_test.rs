use rs_data_api::errors::ClassifiedError;
use rs_data_api::render::encode;
use rs_data_api::value::ExtendedValue;
use rs_data_api::wire::decode;

fn doc(fields: Vec<(&str, ExtendedValue)>) -> ExtendedValue {
    ExtendedValue::Document(
        fields.into_iter().map(|(k, v)| (String::from(k), v)).collect(),
    )
}

fn s(text: &str) -> ExtendedValue {
    ExtendedValue::Str(String::from(text))
}

#[test]
fn encode_int32_boundary_is_bare() {
    let bytes = encode(&ExtendedValue::Int32(2147483647));
    assert_eq!(bytes, b"2147483647".to_vec());
}

#[test]
fn encode_int64_boundary_is_wrapped() {
    let bytes = encode(&ExtendedValue::Int64(2147483648));
    assert_eq!(bytes, b"{\"$numberLong\":\"2147483648\"}".to_vec());
}

#[test]
fn decode_bare_numbers_pick_width() {
    let v = decode(&b"[2147483647,2147483648,-2147483648,-2147483649]".to_vec()).unwrap();
    assert_eq!(
        encode(&v),
        b"[2147483647,{\"$numberLong\":\"2147483648\"},-2147483648,{\"$numberLong\":\"-2147483649\"}]"
            .to_vec()
    );
}

#[test]
fn round_trip_rich_document() {
    let v = doc(vec![
        ("name", s("john")),
        ("age", ExtendedValue::Int32(30)),
        ("big", ExtendedValue::Int64(i64::MIN)),
        ("when", ExtendedValue::DateTime(1700000000123)),
        (
            "id",
            ExtendedValue::ObjectId(vec![
                0x5a, 0x0f, 0x3e, 0x2b, 0x11, 0x22, 0x33, 0x44, 0x55, 0x66, 0x77, 0x88,
            ]),
        ),
        ("re", ExtendedValue::Regex(String::from("^a+b?$"), String::from("ix"))),
        ("dec", ExtendedValue::Decimal128(String::from("10.99"))),
        ("dbl", ExtendedValue::Double(String::from("1.5"))),
        (
            "tags",
            ExtendedValue::Array(vec![s("a"), ExtendedValue::Null, ExtendedValue::Bool(true)]),
        ),
        ("nested", doc(vec![("k", s("v\"q\\u\n"))])),
    ]);
    let wire = encode(&v);
    let back = decode(&wire).expect("canonical text must decode");
    assert_eq!(encode(&back), wire);
}

#[test]
fn decode_recognizes_wrappers() {
    let body = b"{\"id\":{\"$oid\":\"5A0F3E2B1122334455667788\"},\"at\":{\"$date\":{\"$numberLong\":\"42\"}}}";
    let v = decode(&body.to_vec()).unwrap();
    // re-encoding emits lowercase hex and the same canonical wrappers
    assert_eq!(
        encode(&v),
        b"{\"id\":{\"$oid\":\"5a0f3e2b1122334455667788\"},\"at\":{\"$date\":{\"$numberLong\":\"42\"}}}"
            .to_vec()
    );
}

#[test]
fn unrecognized_dollar_keys_stay_documents() {
    let body = b"{\"age\":{\"$in\":30}}".to_vec();
    let v = decode(&body).unwrap();
    assert_eq!(encode(&v), body);
}

#[test]
fn json_to_bson_not_bson() {
    let v = decode(&b"{ \"$numberLong\": 5 }".to_vec());
    match v {
        Err(ClassifiedError::JsonToExtendedValueFailure) => {}
        other => panic!("expected the shape failure, got {:?}", other.is_ok()),
    }
    let msg = rs_data_api::wire::error_response(ClassifiedError::JsonToExtendedValueFailure);
    assert_eq!(msg.body, b"{\"message\":\"JSON to BSON parse error\"}".to_vec());
}

#[test]
fn long_wrapper_payload_must_fit() {
    // 2^63 does not fit a signed 64-bit integer
    let v = decode(&b"{\"$numberLong\":\"9223372036854775808\"}".to_vec());
    assert!(matches!(v, Err(ClassifiedError::JsonToExtendedValueFailure)));
    let ok = decode(&b"{\"$numberLong\":\"9223372036854775807\"}".to_vec()).unwrap();
    assert_eq!(encode(&ok), b"{\"$numberLong\":\"9223372036854775807\"}".to_vec());
}

#[test]
fn oid_payload_must_be_24_hex() {
    assert!(decode(&b"{\"$oid\":\"abc\"}".to_vec()).is_err());
    assert!(decode(&b"{\"$oid\":\"zz0f3e2b1122334455667788\"}".to_vec()).is_err());
}

#[test]
fn string_escapes_round_trip() {
    let v = s("quote \" back \\ ctl \u{1} tab \t end");
    let wire = encode(&v);
    let back = decode(&wire).unwrap();
    assert_eq!(encode(&back), wire);
}

#[test]
fn non_ascii_text_round_trips() {
    let v = doc(vec![("name", s("café 北京 🤷"))]);
    let wire = encode(&v);
    let back = decode(&wire).unwrap();
    assert_eq!(encode(&back), wire);
}

#[test]
fn encoding_is_deterministic() {
    let make = || doc(vec![("b", ExtendedValue::Int32(1)), ("a", ExtendedValue::Int32(2))]);
    assert_eq!(encode(&make()), encode(&make()));
    // key order is preserved, not sorted
    assert_eq!(encode(&make()), b"{\"b\":1,\"a\":2}".to_vec());
}

#[test]
fn binary_encodes_as_base64_with_subtype() {
    let v = ExtendedValue::Binary(0, vec![1, 2, 3]);
    assert_eq!(
        encode(&v),
        b"{\"$binary\":{\"base64\":\"AQID\",\"subType\":\"00\"}}".to_vec()
    );
}

#[test]
fn binary_round_trips_all_paddings() {
    for payload in [vec![], vec![0xff], vec![0xff, 0x10], vec![1, 2, 3, 4]] {
        let v = ExtendedValue::Binary(5, payload);
        let wire = encode(&v);
        let back = decode(&wire).unwrap();
        assert_eq!(encode(&back), wire);
    }
}

#[test]
fn binary_payload_must_be_base64() {
    assert!(decode(&b"{\"$binary\":{\"base64\":\"!!!\",\"subType\":\"00\"}}".to_vec()).is_err());
    assert!(decode(&b"{\"$binary\":{\"base64\":\"AQID\",\"subType\":\"xyz\"}}".to_vec()).is_err());
    assert!(decode(&b"{\"$binary\":5}".to_vec()).is_err());
}
