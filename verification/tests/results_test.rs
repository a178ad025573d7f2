use rs_data_api::render::encode;
use rs_data_api::results::DeleteResult;
use rs_data_api::results::InsertManyResult;
use rs_data_api::results::InsertOneResult;
use rs_data_api::results::UpdateResult;
use rs_data_api::results::unbind_find;
use rs_data_api::results::unbind_find_one;
use rs_data_api::value::ExtendedValue;
use rs_data_api::wire::EJSON;
use rs_data_api::wire::success_response;

#[test]
fn insert_one_result_body() {
    let r = InsertOneResult {
        inserted_id: ExtendedValue::ObjectId(vec![0xab; 12]),
    };
    let body = encode(&r.unbind());
    assert_eq!(
        body,
        b"{\"inserted_id\":{\"$oid\":\"abababababababababababab\"}}".to_vec()
    );
}

#[test]
fn insert_many_result_body() {
    let r = InsertManyResult {
        inserted_ids: vec![ExtendedValue::Int32(1), ExtendedValue::Int32(2)],
    };
    assert_eq!(encode(&r.unbind()), b"{\"inserted_ids\":[1,2]}".to_vec());
}

#[test]
fn update_result_body_without_upsert() {
    let r = UpdateResult { matched_count: 1, modified_count: 1, upserted_id: None };
    assert_eq!(
        encode(&r.unbind()),
        b"{\"matchedCount\":{\"$numberLong\":\"1\"},\"modifiedCount\":{\"$numberLong\":\"1\"}}"
            .to_vec()
    );
}

#[test]
fn update_result_body_with_upsert() {
    let r = UpdateResult {
        matched_count: 0,
        modified_count: 0,
        upserted_id: Some(ExtendedValue::Int32(7)),
    };
    let text = String::from_utf8(encode(&r.unbind())).unwrap();
    assert!(text.contains("\"upsertedId\":7"));
}

#[test]
fn delete_result_body() {
    let r = DeleteResult { deleted_count: 2 };
    assert_eq!(
        encode(&r.unbind()),
        b"{\"deletedCount\":{\"$numberLong\":\"2\"}}".to_vec()
    );
}

#[test]
fn find_one_result_is_null_or_document() {
    assert_eq!(encode(&unbind_find_one(None)), b"null".to_vec());
    let d = vec![(String::from("name"), ExtendedValue::Str(String::from("john")))];
    assert_eq!(encode(&unbind_find_one(Some(d))), b"{\"name\":\"john\"}".to_vec());
}

#[test]
fn find_result_is_an_array_in_order() {
    let a = vec![(String::from("n"), ExtendedValue::Int32(1))];
    let b = vec![(String::from("n"), ExtendedValue::Int32(2))];
    let body = encode(&unbind_find(&vec![a, b]));
    assert_eq!(body, b"[{\"n\":1},{\"n\":2}]".to_vec());
}

#[test]
fn wrapped_payloads_travel_as_ejson() {
    let EJSON(v) = EJSON(ExtendedValue::Bool(true));
    let msg = success_response(&v);
    assert_eq!(msg.body, b"true".to_vec());
    assert_eq!(msg.content_type, "application/ejson");
}
