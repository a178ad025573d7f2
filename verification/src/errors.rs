//! The closed set of error shapes this layer ever emits on the wire,
//! and the classifier that maps store failures into it.
//!
//! Whatever structured detail the store reports survives transcoding
//! unmodified: only the catch-all case degrades to a message string.

use vstd::prelude::*;

use crate::value::DocFields;
use crate::value::ExtendedValue;
use crate::value::SpecValue;
use crate::value::spec_value_of;

verus! {

/// Every failure this layer reports, each constructed once at the point
/// of detection and serialized through the same codec as success bodies.
/// The message-bearing variants carry the exact wire message; the store
/// variants carry the store's structured detail document.
#[derive(Debug)]
pub enum ClassifiedError {
    /// The content-type header is missing or is not header text.
    MalformedContentType(String),
    /// The content type is well-formed but not the one recognized type.
    UnsupportedContentType,
    /// The body is not JSON; carries the parser's positional message.
    MalformedJson(String),
    /// The body is JSON, but a recognized type wrapper has a payload of
    /// the wrong shape.
    JsonToExtendedValueFailure,
    /// A schema-required field is missing or has the wrong type; carries
    /// the message naming the first offending field.
    MissingOrWrongTypedField(String),
    /// A write was rejected; carries the store's write-error document.
    StoreWriteFailure(DocFields),
    /// The server rejected the command; carries the command-error
    /// document.
    StoreCommandFailure(DocFields),
    /// Anything else, collapsed to a human-readable message.
    StoreOther(String),
}

/// A store operation failure, as the operation dispatcher reports it:
/// the failure kind with the structured detail the store gave.
#[derive(Debug)]
pub enum StoreFailure {
    /// A multi-document write failed, possibly partially.
    BulkWrite(DocFields),
    /// A single-document write failed.
    Write(DocFields),
    /// The server rejected the command itself.
    Command(DocFields),
    /// A failure with no structured detail: network, timeout, encoding.
    Other(String),
}

/// The classification table: write failures of either arity become
/// `StoreWriteFailure`, command rejections become `StoreCommandFailure`,
/// everything else becomes `StoreOther`.
pub open spec fn classify_spec(f: StoreFailure) -> ClassifiedError {
    match f {
        StoreFailure::BulkWrite(d) => ClassifiedError::StoreWriteFailure(d),
        StoreFailure::Write(d) => ClassifiedError::StoreWriteFailure(d),
        StoreFailure::Command(d) => ClassifiedError::StoreCommandFailure(d),
        StoreFailure::Other(m) => ClassifiedError::StoreOther(m),
    }
}

/// Maps a store failure into its classified error, exactly as the table
/// says.
pub fn classify(f: StoreFailure) -> (r: ClassifiedError)
    ensures
        r == classify_spec(f),
{
    match f {
        StoreFailure::BulkWrite(d) => ClassifiedError::StoreWriteFailure(d),
        StoreFailure::Write(d) => ClassifiedError::StoreWriteFailure(d),
        StoreFailure::Command(d) => ClassifiedError::StoreCommandFailure(d),
        StoreFailure::Other(m) => ClassifiedError::StoreOther(m),
    }
}

/// The wire message of a message-bearing error; the store-detail
/// variants serialize as their document instead and carry no message of
/// their own.
pub open spec fn error_message(e: ClassifiedError) -> Seq<char> {
    match e {
        ClassifiedError::MalformedContentType(m) => m@,
        ClassifiedError::UnsupportedContentType => "Content Type not accepted"@,
        ClassifiedError::MalformedJson(m) => m@,
        ClassifiedError::JsonToExtendedValueFailure => "JSON to BSON parse error"@,
        ClassifiedError::MissingOrWrongTypedField(m) => m@,
        ClassifiedError::StoreWriteFailure(_) => Seq::empty(),
        ClassifiedError::StoreCommandFailure(_) => Seq::empty(),
        ClassifiedError::StoreOther(m) => m@,
    }
}

/// A one-field document `{"message": <text>}`.
pub open spec fn message_doc(m: Seq<char>) -> SpecValue {
    SpecValue::Document(seq![("message"@, SpecValue::Str(m))])
}

/// What an error looks like on the wire, before encoding: the store's
/// structured detail document where there is one, a `message` document
/// otherwise.
pub open spec fn error_body_spec(e: ClassifiedError) -> SpecValue {
    match e {
        ClassifiedError::StoreWriteFailure(d) => spec_value_of(ExtendedValue::Document(d)),
        ClassifiedError::StoreCommandFailure(d) => spec_value_of(
            ExtendedValue::Document(d),
        ),
        _ => message_doc(error_message(e)),
    }
}

/// Builds a one-field `message` document.
fn message_body(m: String) -> (r: ExtendedValue)
    ensures
        r@ == message_doc(m@),
{
    let ghost mv = m@;
    let mut fields: DocFields = Vec::new();
    fields.push((String::from_str("message"), ExtendedValue::Str(m)));
    let r = ExtendedValue::Document(fields);
    proof {
        assert(fields@.len() == 1);
        let f0 = fields@[0];
        assert(f0.0@ == "message"@);
        assert(f0.1 is Str && f0.1->Str_0@ == mv);
        let d0 = r@->Document_0;
        assert(d0.len() == 1);
        assert(d0[0] == (f0.0@, spec_value_of(f0.1)));
        assert(spec_value_of(f0.1) == SpecValue::Str(mv));
        assert(d0 =~= message_doc(mv)->Document_0);
        assert(r@ == message_doc(mv));
    }
    r
}

/// Builds the wire body value of a classified error.
pub fn error_body(e: &ClassifiedError) -> (r: ExtendedValue)
    ensures
        r@ == error_body_spec(*e),
{
    match e {
        ClassifiedError::MalformedContentType(m) => message_body(m.clone()),
        ClassifiedError::UnsupportedContentType => message_body(
            String::from_str("Content Type not accepted"),
        ),
        ClassifiedError::MalformedJson(m) => message_body(m.clone()),
        ClassifiedError::JsonToExtendedValueFailure => message_body(
            String::from_str("JSON to BSON parse error"),
        ),
        ClassifiedError::MissingOrWrongTypedField(m) => message_body(m.clone()),
        ClassifiedError::StoreWriteFailure(d) => {
            let r = ExtendedValue::Document(crate::value::clone_fields(d));
            proof {
                assert(r@->Document_0 =~= error_body_spec(*e)->Document_0);
                assert(r@ == error_body_spec(*e));
            }
            r
        },
        ClassifiedError::StoreCommandFailure(d) => {
            let r = ExtendedValue::Document(crate::value::clone_fields(d));
            proof {
                assert(r@->Document_0 =~= error_body_spec(*e)->Document_0);
                assert(r@ == error_body_spec(*e));
            }
            r
        },
        ClassifiedError::StoreOther(m) => message_body(m.clone()),
    }
}

/// Error-body fidelity: a store failure's structured detail document is
/// the error body itself, not a collapsed string — for write failures of
/// both arities and for command rejections alike.
pub proof fn lemma_error_body_fidelity(f: StoreFailure)
    ensures
        f matches StoreFailure::BulkWrite(d) ==> error_body_spec(classify_spec(f))
            == spec_value_of(ExtendedValue::Document(d)),
        f matches StoreFailure::Write(d) ==> error_body_spec(classify_spec(f))
            == spec_value_of(ExtendedValue::Document(d)),
        f matches StoreFailure::Command(d) ==> error_body_spec(classify_spec(f))
            == spec_value_of(ExtendedValue::Document(d)),
        f matches StoreFailure::Other(m) ==> error_body_spec(classify_spec(f))
            == message_doc(m@),
{
}

} // verus!
