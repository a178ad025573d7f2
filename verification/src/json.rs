//! The generic JSON tree: what the wire parser hands back, before the
//! codec reinterprets type wrappers.

use vstd::prelude::*;

verus! {

broadcast use vstd::std_specs::vec::group_vec_axioms;

/// A generic JSON value. Numbers with a signed 64-bit representation are
/// `Int`; any other number carries its decimal text in `Float`.
pub enum JsonValue {
    Null,
    Bool(bool),
    Int(i64),
    Float(String),
    Str(String),
    Array(Vec<JsonValue>),
    Object(Vec<(String, JsonValue)>),
}

/// The mathematical model of a generic JSON value.
#[verifier::ext_equal]
pub enum SpecJson {
    Null,
    Bool(bool),
    Int(i64),
    Float(Seq<char>),
    Str(Seq<char>),
    Array(Seq<SpecJson>),
    Object(Seq<(Seq<char>, SpecJson)>),
}

/// The model of a generic JSON value: the same tree over sequences.
pub open spec fn spec_json_of(j: JsonValue) -> SpecJson
    decreases j,
{
    match j {
        JsonValue::Null => SpecJson::Null,
        JsonValue::Bool(b) => SpecJson::Bool(b),
        JsonValue::Int(i) => SpecJson::Int(i),
        JsonValue::Float(s) => SpecJson::Float(s@),
        JsonValue::Str(s) => SpecJson::Str(s@),
        JsonValue::Array(xs) => SpecJson::Array(
            Seq::new(
                xs@.len(),
                |i: int|
                    if 0 <= i < xs@.len() {
                        spec_json_of(xs@[i])
                    } else {
                        SpecJson::Null
                    },
            ),
        ),
        JsonValue::Object(fs) => SpecJson::Object(
            Seq::new(
                fs@.len(),
                |i: int|
                    if 0 <= i < fs@.len() {
                        (fs@[i].0@, spec_json_of(fs@[i].1))
                    } else {
                        (Seq::empty(), SpecJson::Null)
                    },
            ),
        ),
    }
}

impl View for JsonValue {
    type V = SpecJson;

    open spec fn view(&self) -> SpecJson {
        spec_json_of(*self)
    }
}

} // verus!
