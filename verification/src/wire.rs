//! The wire pipeline: content negotiation, then decoding, in that order;
//! and the assembly of outbound messages, success and failure alike
//! through the same codec, under exactly two statuses.

use vstd::prelude::*;

use crate::codec::dec_ok;
use crate::codec::dec_val;
use crate::errors::ClassifiedError;
use crate::errors::error_body;
use crate::errors::error_body_spec;
use crate::errors::error_message;
use crate::guard::ContentTypeVerdict;
use crate::guard::accepted_media_type;
use crate::guard::check_content_type;
use crate::guard::check_spec;
use crate::guard::header_view;
use crate::guard::msg_not_found;
use crate::guard::msg_not_text;
use crate::parse::json_parse;
use crate::parse::parse_json;
use crate::render::encode_spec;
use crate::value::ExtendedValue;
use crate::value::SpecValue;

verus! {

/// A value read from or written to the wire, wrapped as the one
/// recognized media type.
pub struct EJSON<T>(pub T);

/// The boundary unit: status, declared content type, body bytes.
pub struct WireMessage {
    pub status: u16,
    pub content_type: String,
    pub body: Vec<u8>,
}

/// Everything reading a request can come to.
pub enum Outcome {
    /// No content-type header.
    CtMissing,
    /// A content-type header that is not header text.
    CtNotText,
    /// A content type other than the recognized one.
    CtNotAccepted,
    /// The body is not JSON; carries the parser's message.
    BadJson(Seq<char>),
    /// The body is JSON, but a type wrapper has the wrong payload shape.
    BadShape,
    /// The decoded extended value.
    Value(SpecValue),
}

/// The whole inbound pipeline, as a function of header and body bytes:
/// the guard decides first, the codec only after it accepts.
pub open spec fn pipeline_spec(h: Option<Seq<u8>>, body: Seq<u8>) -> Outcome {
    match check_spec(h) {
        ContentTypeVerdict::Missing => Outcome::CtMissing,
        ContentTypeVerdict::NotText => Outcome::CtNotText,
        ContentTypeVerdict::NotAccepted => Outcome::CtNotAccepted,
        ContentTypeVerdict::Accepted => match json_parse(body) {
            Err(m) => Outcome::BadJson(m),
            Ok(js) => {
                if dec_ok(js) {
                    Outcome::Value(dec_val(js))
                } else {
                    Outcome::BadShape
                }
            },
        },
    }
}

/// Negotiation ordering: when the content type is rejected, the outcome
/// is the content-type error and nothing else, whatever the body holds —
/// a malformed body can never surface a body-parse error past the guard.
pub proof fn lemma_negotiation_precedes_body(h: Option<Seq<u8>>, b1: Seq<u8>, b2: Seq<u8>)
    ensures
        !(check_spec(h) is Accepted) ==> pipeline_spec(h, b1) == pipeline_spec(h, b2),
        check_spec(h) is Missing ==> pipeline_spec(h, b1) == Outcome::CtMissing,
        check_spec(h) is NotText ==> pipeline_spec(h, b1) == Outcome::CtNotText,
        check_spec(h) is NotAccepted ==> pipeline_spec(h, b1) == Outcome::CtNotAccepted,
{
}

/// Decodes body bytes into an extended value: JSON syntax errors carry
/// the parser's message verbatim, wrapper-shape faults the fixed shape
/// message.
pub fn decode(body: &Vec<u8>) -> (r: Result<ExtendedValue, ClassifiedError>)
    ensures
        (match json_parse(body@) {
            Err(m) => r matches Err(e) && e is MalformedJson && error_message(e) == m,
            Ok(js) => {
                if dec_ok(js) {
                    r matches Ok(v) && v@ == dec_val(js)
                } else {
                    r == Err::<ExtendedValue, ClassifiedError>(
                        ClassifiedError::JsonToExtendedValueFailure,
                    )
                }
            },
        }),
{
    match parse_json(body) {
        Err(m) => Err(ClassifiedError::MalformedJson(m)),
        Ok(j) => {
            match crate::decode::json_to_extended(&j) {
                Some(v) => Ok(v),
                None => Err(ClassifiedError::JsonToExtendedValueFailure),
            }
        },
    }
}

/// Reads one request: the guard first, the codec after, exactly as
/// `pipeline_spec` composes them, with each failure's exact wire
/// message.
pub fn read_body(h: Option<&Vec<u8>>, body: &Vec<u8>) -> (r: Result<
    ExtendedValue,
    ClassifiedError,
>)
    ensures
        pipeline_spec(header_view(h), body@) is CtMissing ==> (r matches Err(e)
            && e is MalformedContentType && error_message(e) == msg_not_found()),
        pipeline_spec(header_view(h), body@) is CtNotText ==> (r matches Err(e)
            && e is MalformedContentType && error_message(e) == msg_not_text()),
        pipeline_spec(header_view(h), body@) is CtNotAccepted ==> (r matches Err(e)
            && e is UnsupportedContentType),
        pipeline_spec(header_view(h), body@) matches Outcome::BadJson(m) ==> (r matches Err(e)
            && e is MalformedJson && error_message(e) == m),
        pipeline_spec(header_view(h), body@) is BadShape ==> r == Err::<
            ExtendedValue,
            ClassifiedError,
        >(ClassifiedError::JsonToExtendedValueFailure),
        pipeline_spec(header_view(h), body@) matches Outcome::Value(v) ==> (r matches Ok(x)
            && x@ == v),
{
    match check_content_type(h) {
        Err(e) => Err(e),
        Ok(()) => decode(body),
    }
}

/// Builds the outbound success message: the fixed accepted status, the
/// recognized media type, and the canonical encoding of the result tree.
pub fn success_response(v: &ExtendedValue) -> (r: WireMessage)
    ensures
        r.status == 202,
        r.content_type@ == accepted_media_type(),
        r.body@ == encode_spec(v@),
{
    WireMessage {
        status: 202,
        content_type: String::from_str("application/ejson"),
        body: crate::render::encode(v),
    }
}

/// Builds the outbound failure message: the fixed rejected status —
/// the same for every error kind — the recognized media type, and the
/// error body through the same codec as success bodies.
pub fn error_response(e: ClassifiedError) -> (r: WireMessage)
    ensures
        r.status == 400,
        r.content_type@ == accepted_media_type(),
        r.body@ == encode_spec(error_body_spec(e)),
{
    let body_value = error_body(&e);
    WireMessage {
        status: 400,
        content_type: String::from_str("application/ejson"),
        body: crate::render::encode(&body_value),
    }
}

} // verus!
