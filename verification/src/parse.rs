//! The trusted boundary to the JSON parser: the one place where wire
//! bytes become a generic JSON tree. Everything after it is verified.

use vstd::prelude::*;

use crate::json::JsonValue;
use crate::json::SpecJson;

verus! {

#[verifier::external_type_specification]
#[verifier::external_body]
pub struct ExSerdeJsonValue(serde_json::Value);

/// What the JSON parser makes of the given bytes: the tree it returns,
/// or the exact text of its error. Parsing is a function of the bytes
/// alone; nothing more is assumed of it here.
pub uninterp spec fn json_parse(b: Seq<u8>) -> Result<SpecJson, Seq<char>>;

/// Relies on serde_json::Value: this moves each variant of the parsed
/// tree to the matching `JsonValue` variant, field for field; a number
/// keeps its signed 64-bit value when it has one and its decimal text
/// otherwise. Object key order is preserved by the parser's ordered map.
#[verifier::external_body]
fn from_json_value(v: serde_json::Value) -> JsonValue {
    match v {
        serde_json::Value::Null => JsonValue::Null,
        serde_json::Value::Bool(b) => JsonValue::Bool(b),
        serde_json::Value::Number(n) => match n.as_i64() {
            Some(i) => JsonValue::Int(i),
            None => JsonValue::Float(n.to_string()),
        },
        serde_json::Value::String(s) => JsonValue::Str(s),
        serde_json::Value::Array(a) => JsonValue::Array(a.into_iter().map(from_json_value).collect()),
        serde_json::Value::Object(m) => JsonValue::Object(m.into_iter().map(|(k, w)| (k, from_json_value(w))).collect()),
    }
}

/// Relies on serde_json::from_slice: it parses the bytes as one JSON
/// document deterministically, and on a syntax error its display text
/// names the exact line and column of the fault.
#[verifier::external_body]
pub(crate) fn parse_json(b: &Vec<u8>) -> (r: Result<JsonValue, String>)
    ensures
        match r {
            Ok(j) => json_parse(b@) == Ok::<SpecJson, Seq<char>>(j@),
            Err(m) => json_parse(b@) == Err::<SpecJson, Seq<char>>(m@),
        },
{
    match serde_json::from_slice::<serde_json::Value>(b.as_slice()) {
        Ok(v) => Ok(from_json_value(v)),
        Err(e) => Err(e.to_string()),
    }
}

} // verus!
