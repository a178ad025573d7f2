//! The typed binder: a target schema is a list of named fields, each
//! required or optional, with an expected shape. Binding walks the
//! schema in declared order and reports the first offending field only.

use vstd::prelude::*;

use crate::errors::ClassifiedError;
use crate::errors::error_message;
use crate::value::DocFields;
use crate::value::ExtendedValue;
use crate::value::SpecValue;
use crate::value::clone_value;
use crate::value::fields_model;
use vstd::string::StringExecFns;

verus! {

broadcast use vstd::std_specs::vec::group_vec_axioms;

/// The shape a schema field expects: text, a nested document, an array
/// of documents, or any value passed through opaquely.
pub enum FieldShape {
    Text,
    Doc,
    DocArray,
    Any,
}

/// One declared field of a target schema.
pub struct FieldSpec {
    pub name: String,
    pub required: bool,
    pub shape: FieldShape,
}

/// The model of a schema: name, required, shape, in declared order.
pub open spec fn schema_model(schema: Seq<FieldSpec>) -> Seq<(Seq<char>, bool, FieldShape)> {
    Seq::new(
        schema.len(),
        |i: int|
            if 0 <= i < schema.len() {
                (schema[i].name@, schema[i].required, schema[i].shape)
            } else {
                (Seq::empty(), false, FieldShape::Any)
            },
    )
}

/// Whether a value has the expected shape.
pub open spec fn shape_ok(shape: FieldShape, v: SpecValue) -> bool {
    match shape {
        FieldShape::Text => v is Str,
        FieldShape::Doc => v is Document,
        FieldShape::DocArray => v is Array && (forall|i: int|
            0 <= i < v->Array_0.len() ==> (#[trigger] v->Array_0[i]) is Document),
        FieldShape::Any => true,
    }
}

/// The first value under the given key, if any: documents bind by first
/// occurrence.
pub open spec fn doc_get(fields: Seq<(Seq<char>, SpecValue)>, name: Seq<char>) -> Option<
    SpecValue,
>
    decreases fields.len(),
{
    if fields.len() == 0 {
        Option::None
    } else if fields[0].0 == name {
        Option::Some(fields[0].1)
    } else {
        doc_get(fields.drop_first(), name)
    }
}

/// What binding comes to: the bound values in schema order, or the name
/// of the first missing required field, or the name of the first field
/// of the wrong shape.
pub enum BindOutcome {
    Done(Seq<Option<SpecValue>>),
    Missing(Seq<char>),
    Wrong(Seq<char>),
}

/// The binder's decision, field by field in declared order: a missing
/// required field or a shape mismatch stops it at once; an absent
/// optional field binds to nothing.
pub open spec fn bind_spec(
    fields: Seq<(Seq<char>, SpecValue)>,
    schema: Seq<(Seq<char>, bool, FieldShape)>,
) -> BindOutcome
    decreases schema.len(),
{
    if schema.len() == 0 {
        BindOutcome::Done(Seq::empty())
    } else {
        let f = schema[0];
        match doc_get(fields, f.0) {
            Option::None => {
                if f.1 {
                    BindOutcome::Missing(f.0)
                } else {
                    match bind_spec(fields, schema.drop_first()) {
                        BindOutcome::Done(s) => BindOutcome::Done(
                            seq![Option::<SpecValue>::None] + s,
                        ),
                        e => e,
                    }
                }
            },
            Option::Some(v) => {
                if !shape_ok(f.2, v) {
                    BindOutcome::Wrong(f.0)
                } else {
                    match bind_spec(fields, schema.drop_first()) {
                        BindOutcome::Done(s) => BindOutcome::Done(
                            seq![Option::Some(v)] + s,
                        ),
                        e => e,
                    }
                }
            },
        }
    }
}

/// The wire message for a missing required field.
pub open spec fn missing_msg(name: Seq<char>) -> Seq<char> {
    "missing field `"@ + name + "`"@
}

/// The wire message for a field of the wrong shape.
pub open spec fn wrong_msg(name: Seq<char>) -> Seq<char> {
    "invalid type for field `"@ + name + "`"@
}

/// Builds a binder failure message around a field name.
fn field_msg(prefix: &str, name: &String, suffix: &str) -> (r: String)
    ensures
        r@ == prefix@ + name@ + suffix@,
{
    let mut m = String::new();
    m.append(prefix);
    m.append(name.as_str());
    m.append(suffix);
    proof {
        assert(m@ =~= prefix@ + name@ + suffix@);
    }
    m
}

/// Finds the first field with the given key.
#[verifier::loop_isolation(false)]
fn doc_find(fields: &DocFields, name: &String) -> (r: Option<usize>)
    ensures
        match r {
            Some(k) => 0 <= k < fields@.len() && doc_get(fields_model(fields@), name@)
                == Option::Some(fields_model(fields@)[k as int].1),
            None => doc_get(fields_model(fields@), name@) is None,
        },
{
    let ghost fm = fields_model(fields@);
    let n = fields.len();
    let mut i: usize = 0;
    proof {
        assert(fm.skip(0) =~= fm);
    }
    while i < n
        invariant
            0 <= i <= n,
            doc_get(fm, name@) == doc_get(fm.skip(i as int), name@),
        decreases n - i,
    {
        if fields[i].0 == *name {
            proof {
                assert(fm.skip(i as int)[0] == fm[i as int]);
                assert(fm[i as int].0 == fields@[i as int].0@);
            }
            return Some(i);
        }
        proof {
            assert(fm.skip(i as int)[0] == fm[i as int]);
            assert(fm.skip(i as int).drop_first() =~= fm.skip(i + 1));
        }
        i = i + 1;
    }
    proof {
        assert(fm.skip(n as int) =~= Seq::<(Seq<char>, SpecValue)>::empty());
    }
    None
}

/// Whether a value has the expected shape.
#[verifier::loop_isolation(false)]
fn shape_check(shape: &FieldShape, v: &ExtendedValue) -> (r: bool)
    ensures
        r == shape_ok(*shape, v@),
{
    proof {
        crate::value::lemma_model_variant(*v);
    }
    match shape {
        FieldShape::Text => matches!(v, ExtendedValue::Str(_)),
        FieldShape::Doc => matches!(v, ExtendedValue::Document(_)),
        FieldShape::DocArray => {
            match v {
                ExtendedValue::Array(xs) => {
                    let n = xs.len();
                    let ghost em = v@->Array_0;
                    let mut i: usize = 0;
                    while i < n
                        invariant
                            0 <= i <= n,
                            n == xs@.len(),
                            em == v@->Array_0,
                            em.len() == n,
                            *v == ExtendedValue::Array(*xs),
                            forall|k: int| 0 <= k < i ==> (#[trigger] em[k]) is Document,
                        decreases n - i,
                    {
                        proof {
                            assert(em[i as int] == crate::value::spec_value_of(
                                xs@[i as int],
                            ));
                        }
                        match &xs[i] {
                            ExtendedValue::Document(_) => {},
                            _ => {
                                proof {
                                    crate::value::lemma_model_variant(xs@[i as int]);
                                    assert(!((em[i as int]) is Document));
                                    assert(!shape_ok(FieldShape::DocArray, v@)) by {
                                        assert(v@->Array_0[i as int] == em[i as int]);
                                        assert(!((v@->Array_0[i as int]) is Document));
                                    }
                                }
                                return false;
                            },
                        }
                        i = i + 1;
                    }
                    true
                },
                _ => false,
            }
        },
        FieldShape::Any => true,
    }
}

/// Binds a document's fields against a schema, walking the schema in
/// declared order: the first missing required field or wrongly shaped
/// field fails the whole binding with a message naming that field and
/// nothing else; absent optional fields bind to nothing.
#[verifier::rlimit(100)]
#[verifier::spinoff_prover]
#[verifier::loop_isolation(false)]
pub fn bind_fields(doc: &DocFields, schema: &Vec<FieldSpec>) -> (r: Result<
    Vec<Option<ExtendedValue>>,
    ClassifiedError,
>)
    ensures
        (match bind_spec(fields_model(doc@), schema_model(schema@)) {
            BindOutcome::Done(s) => r matches Ok(out) && bound_model(out@) == s,
            BindOutcome::Missing(n) => r matches Err(e) && e is MissingOrWrongTypedField
                && error_message(e) == missing_msg(n),
            BindOutcome::Wrong(n) => r matches Err(e) && e is MissingOrWrongTypedField
                && error_message(e) == wrong_msg(n),
        }),
{
    let ghost fm = fields_model(doc@);
    let ghost sm = schema_model(schema@);
    let n = schema.len();
    let mut out: Vec<Option<ExtendedValue>> = Vec::new();
    let mut i: usize = 0;
    proof {
        assert(sm.skip(0) =~= sm);
        match bind_spec(fm, sm) {
            BindOutcome::Done(s) => {
                assert(bound_model(out@) + s =~= s);
            },
            _ => {},
        }
    }
    while i < n
        invariant
            0 <= i <= n,
            out@.len() == i,
            bind_spec(fm, sm) == (match bind_spec(fm, sm.skip(i as int)) {
                BindOutcome::Done(s) => BindOutcome::Done(bound_model(out@) + s),
                e => e,
            }),
        decreases n - i,
    {
        let ghost smi = sm.skip(i as int);
        let ghost out_old = out@;
        proof {
            assert(smi[0] == sm[i as int]);
            assert(sm[i as int] == (schema@[i as int].name@, schema@[i as int].required,
                schema@[i as int].shape));
            assert(smi.drop_first() =~= sm.skip(i + 1));
        }
        let f = &schema[i];
        match doc_find(doc, &f.name) {
            None => {
                if f.required {
                    let m = field_msg("missing field `", &f.name, "`");
                    proof {
                        assert(bind_spec(fm, smi) == BindOutcome::Missing(f.name@));
                    }
                    return Err(ClassifiedError::MissingOrWrongTypedField(m));
                }
                out.push(None);
                proof {
                    assert(bind_spec(fm, smi) == (match bind_spec(fm, smi.drop_first()) {
                        BindOutcome::Done(s) => BindOutcome::Done(
                            seq![Option::<SpecValue>::None] + s,
                        ),
                        e => e,
                    }));
                    assert(bound_model(out@) =~= bound_model(out_old).push(
                        Option::<SpecValue>::None,
                    ));
                    lemma_step(fm, sm, i as int, out_old, out@, Option::<SpecValue>::None);
                }
            },
            Some(k) => {
                let val = &doc[k].1;
                proof {
                    assert(fields_model(doc@)[k as int].1 == crate::value::spec_value_of(
                        doc@[k as int].1,
                    ));
                }
                if !shape_check(&f.shape, val) {
                    let m = field_msg("invalid type for field `", &f.name, "`");
                    proof {
                        assert(bind_spec(fm, smi) == BindOutcome::Wrong(f.name@));
                    }
                    return Err(ClassifiedError::MissingOrWrongTypedField(m));
                }
                let c = clone_value(val);
                let ghost cv = c@;
                out.push(Some(c));
                proof {
                    assert(bind_spec(fm, smi) == (match bind_spec(fm, smi.drop_first()) {
                        BindOutcome::Done(s) => BindOutcome::Done(
                            seq![Option::Some(fm[k as int].1)] + s,
                        ),
                        e => e,
                    }));
                    assert(cv == fm[k as int].1);
                    assert(bound_model(out@) =~= bound_model(out_old).push(Option::Some(cv)));
                    lemma_step(fm, sm, i as int, out_old, out@, Option::Some(cv));
                }
            },
        }
        i = i + 1;
    }
    proof {
        assert(sm.skip(n as int) =~= Seq::<(Seq<char>, bool, FieldShape)>::empty());
        assert(bind_spec(fm, sm.skip(n as int)) == BindOutcome::Done(
            Seq::<Option<SpecValue>>::empty(),
        ));
        assert(bound_model(out@) + Seq::<Option<SpecValue>>::empty() =~= bound_model(out@));
    }
    Ok(out)
}

/// One binding step keeps the loop's accounting: with the new value
/// appended, the processed prefix and the remaining schema still compose
/// to the whole binding.
proof fn lemma_step(
    fm: Seq<(Seq<char>, SpecValue)>,
    sm: Seq<(Seq<char>, bool, FieldShape)>,
    i: int,
    out_old: Seq<Option<ExtendedValue>>,
    out_new: Seq<Option<ExtendedValue>>,
    x: Option<SpecValue>,
)
    requires
        0 <= i < sm.len(),
        bind_spec(fm, sm) == (match bind_spec(fm, sm.skip(i)) {
            BindOutcome::Done(s) => BindOutcome::Done(bound_model(out_old) + s),
            e => e,
        }),
        bind_spec(fm, sm.skip(i)) == (match bind_spec(fm, sm.skip(i + 1)) {
            BindOutcome::Done(s) => BindOutcome::Done(seq![x] + s),
            e => e,
        }),
        bound_model(out_new) == bound_model(out_old).push(x),
    ensures
        bind_spec(fm, sm) == (match bind_spec(fm, sm.skip(i + 1)) {
            BindOutcome::Done(s) => BindOutcome::Done(bound_model(out_new) + s),
            e => e,
        }),
{
    match bind_spec(fm, sm.skip(i + 1)) {
        BindOutcome::Done(s) => {
            assert(bound_model(out_old) + (seq![x] + s) =~= bound_model(out_new) + s);
        },
        _ => {},
    }
}

/// The models of bound values, position by position.
pub open spec fn bound_model(out: Seq<Option<ExtendedValue>>) -> Seq<Option<SpecValue>> {
    Seq::new(
        out.len(),
        |i: int|
            if 0 <= i < out.len() {
                match out[i] {
                    Option::Some(v) => Option::Some(crate::value::spec_value_of(v)),
                    Option::None => Option::None,
                }
            } else {
                Option::None
            },
    )
}

/// What a completed binding guarantees, slot by slot: one slot per
/// schema field; every required field is bound; a bound slot holds the
/// first value under its key, in the expected shape; an empty slot means
/// the key is absent and the field optional.
pub proof fn lemma_bind_done(
    fields: Seq<(Seq<char>, SpecValue)>,
    schema: Seq<(Seq<char>, bool, FieldShape)>,
    s: Seq<Option<SpecValue>>,
)
    requires
        bind_spec(fields, schema) == BindOutcome::Done(s),
    ensures
        s.len() == schema.len(),
        forall|k: int|
            0 <= k < schema.len() && schema[k].1 ==> (#[trigger] s[k]) is Some,
        forall|k: int|
            0 <= k < schema.len() && (#[trigger] s[k]) is Some ==> doc_get(fields, schema[k].0)
                == Option::Some(s[k]->0) && shape_ok(schema[k].2, s[k]->0),
        forall|k: int|
            0 <= k < schema.len() && (#[trigger] s[k]) is None ==> doc_get(fields, schema[k].0)
                is None && !schema[k].1,
    decreases schema.len(),
{
    if schema.len() == 0 {
        assert(s =~= Seq::<Option<SpecValue>>::empty());
    } else {
        let f = schema[0];
        let rest = schema.drop_first();
        match doc_get(fields, f.0) {
            Option::None => {
                assert(!f.1);
                match bind_spec(fields, rest) {
                    BindOutcome::Done(s2) => {
                        lemma_bind_done(fields, rest, s2);
                        assert(s == seq![Option::<SpecValue>::None] + s2);
                        assert(s[0] is None);
                        assert(forall|k: int|
                            1 <= k < s.len() ==> #[trigger] s[k] == s2[k - 1]);
                        assert(forall|k: int|
                            1 <= k < schema.len() ==> #[trigger] schema[k] == rest[k - 1]);
                    },
                    _ => {
                        assert(false);
                    },
                }
            },
            Option::Some(v) => {
                assert(shape_ok(f.2, v));
                match bind_spec(fields, rest) {
                    BindOutcome::Done(s2) => {
                        lemma_bind_done(fields, rest, s2);
                        assert(s == seq![Option::Some(v)] + s2);
                        assert(s[0] == Option::Some(v));
                        assert(forall|k: int|
                            1 <= k < s.len() ==> #[trigger] s[k] == s2[k - 1]);
                        assert(forall|k: int|
                            1 <= k < schema.len() ==> #[trigger] schema[k] == rest[k - 1]);
                    },
                    _ => {
                        assert(false);
                    },
                }
            },
        }
    }
}

} // verus!
