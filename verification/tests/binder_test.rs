use rs_data_api::bind::FieldShape;
use rs_data_api::bind::FieldSpec;
use rs_data_api::bind::bind_fields;
use rs_data_api::errors::ClassifiedError;
use rs_data_api::errors::StoreFailure;
use rs_data_api::errors::classify;
use rs_data_api::render::encode;
use rs_data_api::requests::FindOneBody;
use rs_data_api::requests::InsertManyBody;
use rs_data_api::requests::UpdateOneBody;
use rs_data_api::value::ExtendedValue;
use rs_data_api::wire::decode;
use rs_data_api::wire::error_response;

fn decode_ok(text: &str) -> ExtendedValue {
    decode(&text.as_bytes().to_vec()).ok().unwrap()
}

fn binder_message(e: ClassifiedError) -> String {
    match e {
        ClassifiedError::MissingOrWrongTypedField(m) => m,
        _ => panic!("expected a binder failure"),
    }
}

#[test]
fn bson_to_struct_wrong_bson() {
    // a well-formed document that lacks the schema-required field `name`
    let v = decode_ok("{\"message\": \"hello world\"}");
    let fields = match v {
        ExtendedValue::Document(fs) => fs,
        _ => panic!("expected a document"),
    };
    let schema = vec![FieldSpec {
        name: String::from("name"),
        required: true,
        shape: FieldShape::Text,
    }];
    let e = bind_fields(&fields, &schema).err().unwrap();
    assert_eq!(binder_message(e), "missing field `name`");
}

#[test]
fn wrong_struct_body() {
    let v = decode_ok("{ \"name\": \"john\" }");
    let e = FindOneBody::bind(&v).err().unwrap();
    let body = error_response(e).body;
    let text = String::from_utf8(body).unwrap();
    assert!(text.contains("missing field"));
    assert!(text.contains("`db`"));
}

#[test]
fn binder_reports_first_offending_field_only() {
    let v = decode_ok("{\"db\":\"test\"}");
    let e = FindOneBody::bind(&v).err().unwrap();
    assert_eq!(binder_message(e), "missing field `collection`");
}

#[test]
fn binder_rejects_wrong_shapes() {
    let v = decode_ok("{\"db\":5,\"collection\":\"users\",\"filter\":{}}");
    let e = FindOneBody::bind(&v).err().unwrap();
    assert_eq!(binder_message(e), "invalid type for field `db`");
}

#[test]
fn find_one_binds_all_fields() {
    let v = decode_ok(
        "{\"db\":\"test\",\"collection\":\"users\",\"filter\":{\"name\":\"john\"},\"options\":{\"projection\":{\"_id\":0}}}",
    );
    let b = FindOneBody::bind(&v).unwrap();
    assert_eq!(b.db, "test");
    assert_eq!(b.collection, "users");
    assert_eq!(
        encode(&ExtendedValue::Document(b.filter)),
        b"{\"name\":\"john\"}".to_vec()
    );
    let opts = b.options.unwrap();
    assert_eq!(
        encode(&ExtendedValue::Document(opts)),
        b"{\"projection\":{\"_id\":0}}".to_vec()
    );
}

#[test]
fn absent_options_bind_to_nothing() {
    let v = decode_ok("{\"db\":\"test\",\"collection\":\"users\",\"filter\":{}}");
    let b = FindOneBody::bind(&v).unwrap();
    assert!(b.options.is_none());
}

#[test]
fn insert_many_binds_each_document() {
    let v = decode_ok(
        "{\"db\":\"test\",\"collection\":\"users\",\"documents\":[{\"name\":\"john\"},{\"name\":\"jim\"}]}",
    );
    let b = InsertManyBody::bind(&v).unwrap();
    assert_eq!(b.documents.len(), 2);
    assert_eq!(
        encode(&ExtendedValue::Document(clone_doc(&b.documents[1]))),
        b"{\"name\":\"jim\"}".to_vec()
    );
}

#[test]
fn insert_many_rejects_non_document_elements() {
    let v = decode_ok("{\"db\":\"t\",\"collection\":\"c\",\"documents\":[{\"a\":1},5]}");
    let e = InsertManyBody::bind(&v).err().unwrap();
    assert_eq!(binder_message(e), "invalid type for field `documents`");
}

#[test]
fn update_binds_query_and_update() {
    let v = decode_ok(
        "{\"db\":\"t\",\"collection\":\"c\",\"query\":{\"_id\":1},\"update\":{\"$set\":{\"age\":35}},\"options\":{\"upsert\":true}}",
    );
    let b = UpdateOneBody::bind(&v).unwrap();
    assert_eq!(encode(&ExtendedValue::Document(b.query)), b"{\"_id\":1}".to_vec());
    assert_eq!(
        encode(&ExtendedValue::Document(b.update)),
        b"{\"$set\":{\"age\":35}}".to_vec()
    );
}

#[test]
fn non_document_body_is_rejected() {
    let v = decode_ok("[1,2,3]");
    let e = FindOneBody::bind(&v).err().unwrap();
    assert_eq!(binder_message(e), "invalid type: expected a document");
}

#[test]
fn duplicate_key_failure_keeps_structured_detail() {
    // a simulated duplicate-key store failure must serialize through the
    // same codec as success bodies, detail intact
    let detail = decode_ok(
        "{\"writeErrors\":[{\"index\":0,\"code\":11000,\"errmsg\":\"E11000 duplicate key error\"}]}",
    );
    let fields = match detail {
        ExtendedValue::Document(fs) => fs,
        _ => panic!("expected a document"),
    };
    let expected = encode(&ExtendedValue::Document(clone_doc(&fields)));
    let e = classify(StoreFailure::Write(fields));
    assert!(matches!(e, ClassifiedError::StoreWriteFailure(_)));
    let msg = error_response(e);
    assert_eq!(msg.status, 400);
    assert_eq!(msg.body, expected);
    let text = String::from_utf8(msg.body).unwrap();
    assert!(text.contains("E11000 duplicate key error"));
}

#[test]
fn catch_all_failure_degrades_to_a_message() {
    let e = classify(StoreFailure::Other(String::from("connection reset")));
    let msg = error_response(e);
    assert_eq!(msg.body, b"{\"message\":\"connection reset\"}".to_vec());
}

fn clone_doc(
    fields: &Vec<(String, ExtendedValue)>,
) -> Vec<(String, ExtendedValue)> {
    fields
        .iter()
        .map(|(k, v)| (k.clone(), clone_value(v)))
        .collect()
}

fn clone_value(v: &ExtendedValue) -> ExtendedValue {
    let bytes = encode(v);
    decode(&bytes).ok().unwrap()
}
