use rs_data_api::errors::ClassifiedError;
use rs_data_api::guard::check_content_type;
use rs_data_api::wire::error_response;
use rs_data_api::wire::read_body;
use rs_data_api::wire::success_response;

fn message_of(e: ClassifiedError) -> Vec<u8> {
    error_response(e).body
}

#[test]
fn get_header_value_no_header() {
    let res = check_content_type(None).err().unwrap();
    let body = message_of(res);
    assert_eq!(body, b"{\"message\":\"Content Type not found\"}".to_vec());
}

#[test]
fn get_content_type_not_str() {
    let header = "🤷‍♂️".as_bytes().to_vec();
    let res = check_content_type(Some(&header)).err().unwrap();
    let body = message_of(res);
    assert_eq!(body, b"{\"message\":\"failed to convert header to a str\"}".to_vec());
}

#[test]
fn validate_content_type_not_ejson() {
    let header = b"not_ejson".to_vec();
    let res = check_content_type(Some(&header)).err().unwrap();
    let body = message_of(res);
    assert_eq!(body, b"{\"message\":\"Content Type not accepted\"}".to_vec());
}

#[test]
fn bytes_to_json_not_json() {
    let header = b"application/ejson".to_vec();
    let res = read_body(Some(&header), &b"{ name: john }".to_vec()).err().unwrap();
    match res {
        ClassifiedError::MalformedJson(m) => {
            assert_eq!(m, "key must be a string at line 1 column 3");
        }
        _ => panic!("expected a JSON syntax error"),
    }
}

#[test]
fn wrong_header_value() {
    let header = b"application/wrong".to_vec();
    let res = read_body(Some(&header), &b"{}".to_vec()).err().unwrap();
    let body = message_of(res);
    assert_eq!(body, b"{\"message\":\"Content Type not accepted\"}".to_vec());
}

#[test]
fn negotiation_runs_before_the_body_is_parsed() {
    // unrecognized content type and a syntactically invalid body:
    // the content-type error wins, never the body-parse error
    let header = b"application/wrong".to_vec();
    let res = read_body(Some(&header), &b"{ name: john }".to_vec()).err().unwrap();
    assert!(matches!(res, ClassifiedError::UnsupportedContentType));
    let res2 = read_body(None, &b"{ name: john }".to_vec()).err().unwrap();
    assert!(matches!(res2, ClassifiedError::MalformedContentType(_)));
}

#[test]
fn accepted_type_reads_the_body() {
    let header = b"application/ejson".to_vec();
    let v = read_body(Some(&header), &b"{\"name\":\"john\",\"age\":30}".to_vec()).unwrap();
    let msg = success_response(&v);
    assert_eq!(msg.status, 202);
    assert_eq!(msg.content_type, "application/ejson");
    assert_eq!(msg.body, b"{\"name\":\"john\",\"age\":30}".to_vec());
}

#[test]
fn rejected_status_is_uniform() {
    let msg = error_response(ClassifiedError::UnsupportedContentType);
    assert_eq!(msg.status, 400);
    assert_eq!(msg.content_type, "application/ejson");
}

#[test]
fn no_header_value() {
    let res = read_body(None, &b"{}".to_vec()).err().unwrap();
    let body = message_of(res);
    assert_eq!(body, b"{\"message\":\"Content Type not found\"}".to_vec());
}

#[test]
fn not_str_header_value() {
    let header = "🤷‍♂️".as_bytes().to_vec();
    let res = read_body(Some(&header), &b"{}".to_vec()).err().unwrap();
    let body = message_of(res);
    assert_eq!(body, b"{\"message\":\"failed to convert header to a str\"}".to_vec());
}

#[test]
fn not_ejson_body() {
    let header = b"application/ejson".to_vec();
    let res = read_body(Some(&header), &b"{ name: john }".to_vec()).err().unwrap();
    let body = message_of(res);
    assert_eq!(
        body,
        b"{\"message\":\"key must be a string at line 1 column 3\"}".to_vec()
    );
}

#[test]
fn header_with_space_and_tab_is_text() {
    let header = b"text/plain; charset=utf-8".to_vec();
    let res = read_body(Some(&header), &b"{}".to_vec()).err().unwrap();
    assert!(matches!(res, ClassifiedError::UnsupportedContentType));
}

#[test]
fn media_type_match_is_case_sensitive() {
    let header = b"Application/EJSON".to_vec();
    let res = read_body(Some(&header), &b"{}".to_vec()).err().unwrap();
    assert!(matches!(res, ClassifiedError::UnsupportedContentType));
}
