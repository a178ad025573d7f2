//! The typed request structures, one per operation, each bound from a
//! decoded document by the declarative binder: `db` and `collection` are
//! required text, the operation's payload documents are required, and
//! `options` is an optional document passed through opaquely.

use vstd::prelude::*;

use crate::bind::BindOutcome;
use crate::bind::FieldShape;
use crate::bind::FieldSpec;
use crate::bind::bind_fields;
use crate::bind::bind_spec;
use crate::bind::missing_msg;
use crate::bind::schema_model;
use crate::bind::shape_ok;
use crate::bind::wrong_msg;
use crate::errors::ClassifiedError;
use crate::errors::error_message;
use crate::value::DocFields;
use crate::value::ExtendedValue;
use crate::value::SpecValue;
use crate::value::fields_model;
use crate::value::spec_value_of;

verus! {

broadcast use vstd::std_specs::vec::group_vec_axioms;

/// The wire message for a body that is not a document at all.
pub open spec fn msg_not_document() -> Seq<char> {
    "invalid type: expected a document"@
}

/// The schema shared by the filter-driven operations: `db`, `collection`,
/// the operation's one document under `key`, and opaque `options`.
pub open spec fn query_schema(key: Seq<char>) -> Seq<(Seq<char>, bool, FieldShape)> {
    seq![
        ("db"@, true, FieldShape::Text),
        ("collection"@, true, FieldShape::Text),
        (key, true, FieldShape::Doc),
        ("options"@, false, FieldShape::Doc),
    ]
}

/// The schema of the update operations: a query document and an update
/// document.
pub open spec fn update_schema() -> Seq<(Seq<char>, bool, FieldShape)> {
    seq![
        ("db"@, true, FieldShape::Text),
        ("collection"@, true, FieldShape::Text),
        ("query"@, true, FieldShape::Doc),
        ("update"@, true, FieldShape::Doc),
        ("options"@, false, FieldShape::Doc),
    ]
}

/// The schema of the many-document insert: an array of documents.
pub open spec fn insert_many_schema() -> Seq<(Seq<char>, bool, FieldShape)> {
    seq![
        ("db"@, true, FieldShape::Text),
        ("collection"@, true, FieldShape::Text),
        ("documents"@, true, FieldShape::DocArray),
        ("options"@, false, FieldShape::Doc),
    ]
}

/// The model of an optional options document.
pub open spec fn opt_model(o: Option<DocFields>) -> Option<Seq<(Seq<char>, SpecValue)>> {
    match o {
        Option::Some(d) => Option::Some(fields_model(d@)),
        Option::None => Option::None,
    }
}

/// Whether a binder failure maps to this error, message included.
pub open spec fn bind_error_ok(
    v: SpecValue,
    schema: Seq<(Seq<char>, bool, FieldShape)>,
    e: ClassifiedError,
) -> bool {
    if !(v is Document) {
        e is MissingOrWrongTypedField && error_message(e) == msg_not_document()
    } else {
        match bind_spec(v->Document_0, schema) {
            BindOutcome::Missing(n) => e is MissingOrWrongTypedField && error_message(e)
                == missing_msg(n),
            BindOutcome::Wrong(n) => e is MissingOrWrongTypedField && error_message(e)
                == wrong_msg(n),
            BindOutcome::Done(_) => false,
        }
    }
}

/// Whether these are exactly the parts the binder yields for a
/// filter-driven body.
pub open spec fn query_parts_ok(
    v: SpecValue,
    key: Seq<char>,
    db: Seq<char>,
    coll: Seq<char>,
    payload: Seq<(Seq<char>, SpecValue)>,
    options: Option<Seq<(Seq<char>, SpecValue)>>,
) -> bool {
    match bind_spec(v->Document_0, query_schema(key)) {
        BindOutcome::Done(s) => {
            &&& db == s[0]->0->Str_0
            &&& coll == s[1]->0->Str_0
            &&& Option::Some(payload) == match s[2] {
                Option::Some(p) => Option::Some(p->Document_0),
                Option::None => Option::None,
            }
            &&& options == match s[3] {
                Option::Some(o) => Option::Some(o->Document_0),
                Option::None => Option::None::<Seq<(Seq<char>, SpecValue)>>,
            }
        },
        _ => false,
    }
}

/// Builds the executable form of a schema entry list whose model is the
/// given spec schema.
fn make_query_schema(key: &str) -> (r: Vec<FieldSpec>)
    ensures
        schema_model(r@) == query_schema(key@),
{
    let mut r: Vec<FieldSpec> = Vec::new();
    r.push(FieldSpec { name: String::from_str("db"), required: true, shape: FieldShape::Text });
    r.push(
        FieldSpec {
            name: String::from_str("collection"),
            required: true,
            shape: FieldShape::Text,
        },
    );
    r.push(FieldSpec { name: String::from_str(key), required: true, shape: FieldShape::Doc });
    r.push(
        FieldSpec { name: String::from_str("options"), required: false, shape: FieldShape::Doc },
    );
    proof {
        assert(schema_model(r@) =~= query_schema(key@));
    }
    r
}

/// Takes a bound text slot.
fn expect_text(o: Option<ExtendedValue>) -> (r: String)
    requires
        o is Some,
        spec_value_of(o->0) is Str,
    ensures
        r@ == spec_value_of(o->0)->Str_0,
{
    match o {
        Option::Some(ExtendedValue::Str(s)) => s,
        _ => {
            proof {
                crate::value::lemma_model_variant(o->0);
            }
            vstd::pervasive::unreached()
        },
    }
}

/// Takes a bound document slot.
fn expect_doc(o: Option<ExtendedValue>) -> (r: DocFields)
    requires
        o is Some,
        spec_value_of(o->0) is Document,
    ensures
        fields_model(r@) == spec_value_of(o->0)->Document_0,
{
    match o {
        Option::Some(ExtendedValue::Document(d)) => d,
        _ => {
            proof {
                crate::value::lemma_model_variant(o->0);
            }
            vstd::pervasive::unreached()
        },
    }
}

/// Takes an optional bound document slot.
fn expect_opt_doc(o: Option<ExtendedValue>) -> (r: Option<DocFields>)
    requires
        o is Some ==> spec_value_of(o->0) is Document,
    ensures
        (r is Some <==> o is Some),
        r matches Some(d) ==> fields_model(d@) == spec_value_of(o->0)->Document_0,
{
    match o {
        Option::Some(ExtendedValue::Document(d)) => Option::Some(d),
        Option::None => Option::None,
        Option::Some(other) => {
            proof {
                crate::value::lemma_model_variant(other);
            }
            vstd::pervasive::unreached()
        },
    }
}

/// Binds the shared filter-driven body shape, with the one payload
/// document under `key`.
#[verifier::rlimit(100)]
#[verifier::spinoff_prover]
fn bind_query(v: &ExtendedValue, key: &str) -> (r: Result<
    (String, String, DocFields, Option<DocFields>),
    ClassifiedError,
>)
    ensures
        r matches Ok(p) ==> (v@ is Document && query_parts_ok(
            v@,
            key@,
            p.0@,
            p.1@,
            fields_model(p.2@),
            opt_model(p.3),
        )),
        r matches Err(e) ==> bind_error_ok(v@, query_schema(key@), e),
        r is Ok <==> (v@ is Document && bind_spec(v@->Document_0, query_schema(key@))
            is Done),
{
    proof {
        crate::value::lemma_model_variant(*v);
    }
    let fs = match v {
        ExtendedValue::Document(fs) => fs,
        _ => {
            return Err(
                ClassifiedError::MissingOrWrongTypedField(
                    String::from_str("invalid type: expected a document"),
                ),
            );
        },
    };
    proof {
        assert(v@->Document_0 == fields_model(fs@));
    }
    let schema = make_query_schema(key);
    let ghost sm = query_schema(key@);
    match bind_fields(fs, &schema) {
        Err(e) => Err(e),
        Ok(mut out) => {
            let ghost s = crate::bind::bound_model(out@);
            proof {
                crate::bind::lemma_bind_done(fields_model(fs@), sm, s);
                assert(s.len() == 4);
                assert(sm[0].1 && sm[1].1 && sm[2].1);
                assert(s[0] is Some && shape_ok(FieldShape::Text, s[0]->0));
                assert(s[1] is Some && shape_ok(FieldShape::Text, s[1]->0));
                assert(s[2] is Some && shape_ok(FieldShape::Doc, s[2]->0));
                assert(s[3] is Some ==> shape_ok(FieldShape::Doc, s[3]->0));
            }
            proof {
                assert(s.take(4) =~= s);
            }
            let o3 = pop_slot(&mut out, Ghost(s), Ghost(3));
            let o2 = pop_slot(&mut out, Ghost(s), Ghost(2));
            let o1 = pop_slot(&mut out, Ghost(s), Ghost(1));
            let o0 = pop_slot(&mut out, Ghost(s), Ghost(0));
            let opts = expect_opt_doc(o3);
            let payload = expect_doc(o2);
            let coll = expect_text(o1);
            let db = expect_text(o0);
            Ok((db, coll, payload, opts))
        },
    }
}

/// Pops the last bound slot, tying it to its model.
fn pop_slot(
    out: &mut Vec<Option<ExtendedValue>>,
    Ghost(s): Ghost<Seq<Option<SpecValue>>>,
    Ghost(k): Ghost<int>,
) -> (r: Option<ExtendedValue>)
    requires
        crate::bind::bound_model(old(out)@) == s.take(k + 1),
        0 <= k < s.len(),
        old(out)@.len() == k + 1,
    ensures
        crate::bind::bound_model(final(out)@) == s.take(k),
        final(out)@.len() == k,
        (r is Some <==> s[k] is Some),
        r matches Some(x) ==> spec_value_of(x) == s[k]->0,
{
    let r = out.pop();
    proof {
        assert(crate::bind::bound_model(old(out)@)[k] == s.take(k + 1)[k]);
        assert(crate::bind::bound_model(final(out)@) =~= s.take(k));
    }
    match r {
        Option::Some(x) => x,
        Option::None => vstd::pervasive::unreached(),
    }
}

/// The find operation's body.
pub struct FindBody {
    pub db: String,
    pub collection: String,
    pub filter: DocFields,
    pub options: Option<DocFields>,
}

impl FindBody {
    /// Binds a decoded body for a find.
    pub fn bind(v: &ExtendedValue) -> (r: Result<FindBody, ClassifiedError>)
        ensures
            r matches Ok(b) ==> (v@ is Document && query_parts_ok(
                v@,
                "filter"@,
                b.db@,
                b.collection@,
                fields_model(b.filter@),
                opt_model(b.options),
            )),
            r matches Err(e) ==> bind_error_ok(v@, query_schema("filter"@), e),
            r is Ok <==> (v@ is Document && bind_spec(
                v@->Document_0,
                query_schema("filter"@),
            ) is Done),
    {
        match bind_query(v, "filter") {
            Err(e) => Err(e),
            Ok((db, collection, filter, options)) => Ok(
                FindBody { db, collection, filter, options },
            ),
        }
    }
}

/// The single-document find operation's body.
pub struct FindOneBody {
    pub db: String,
    pub collection: String,
    pub filter: DocFields,
    pub options: Option<DocFields>,
}

impl FindOneBody {
    /// Binds a decoded body for a single-document find.
    pub fn bind(v: &ExtendedValue) -> (r: Result<FindOneBody, ClassifiedError>)
        ensures
            r matches Ok(b) ==> (v@ is Document && query_parts_ok(
                v@,
                "filter"@,
                b.db@,
                b.collection@,
                fields_model(b.filter@),
                opt_model(b.options),
            )),
            r matches Err(e) ==> bind_error_ok(v@, query_schema("filter"@), e),
            r is Ok <==> (v@ is Document && bind_spec(
                v@->Document_0,
                query_schema("filter"@),
            ) is Done),
    {
        match bind_query(v, "filter") {
            Err(e) => Err(e),
            Ok((db, collection, filter, options)) => Ok(
                FindOneBody { db, collection, filter, options },
            ),
        }
    }
}

/// The many-document delete operation's body.
pub struct DeleteManyBody {
    pub db: String,
    pub collection: String,
    pub filter: DocFields,
    pub options: Option<DocFields>,
}

impl DeleteManyBody {
    /// Binds a decoded body for a many-document delete.
    pub fn bind(v: &ExtendedValue) -> (r: Result<DeleteManyBody, ClassifiedError>)
        ensures
            r matches Ok(b) ==> (v@ is Document && query_parts_ok(
                v@,
                "filter"@,
                b.db@,
                b.collection@,
                fields_model(b.filter@),
                opt_model(b.options),
            )),
            r matches Err(e) ==> bind_error_ok(v@, query_schema("filter"@), e),
            r is Ok <==> (v@ is Document && bind_spec(
                v@->Document_0,
                query_schema("filter"@),
            ) is Done),
    {
        match bind_query(v, "filter") {
            Err(e) => Err(e),
            Ok((db, collection, filter, options)) => Ok(
                DeleteManyBody { db, collection, filter, options },
            ),
        }
    }
}

/// The single-document insert operation's body.
pub struct InsertOneBody {
    pub db: String,
    pub collection: String,
    pub document: DocFields,
    pub options: Option<DocFields>,
}

impl InsertOneBody {
    /// Binds a decoded body for a single-document insert.
    pub fn bind(v: &ExtendedValue) -> (r: Result<InsertOneBody, ClassifiedError>)
        ensures
            r matches Ok(b) ==> (v@ is Document && query_parts_ok(
                v@,
                "document"@,
                b.db@,
                b.collection@,
                fields_model(b.document@),
                opt_model(b.options),
            )),
            r matches Err(e) ==> bind_error_ok(v@, query_schema("document"@), e),
            r is Ok <==> (v@ is Document && bind_spec(
                v@->Document_0,
                query_schema("document"@),
            ) is Done),
    {
        match bind_query(v, "document") {
            Err(e) => Err(e),
            Ok((db, collection, document, options)) => Ok(
                InsertOneBody { db, collection, document, options },
            ),
        }
    }
}

/// The documents of an array of document values, element by element.
pub open spec fn doc_seq(arr: Seq<SpecValue>) -> Seq<Seq<(Seq<char>, SpecValue)>> {
    Seq::new(
        arr.len(),
        |i: int|
            if 0 <= i < arr.len() {
                arr[i]->Document_0
            } else {
                Seq::empty()
            },
    )
}

/// The models of a vector of field lists, element by element.
pub open spec fn docs_model(ds: Seq<DocFields>) -> Seq<Seq<(Seq<char>, SpecValue)>> {
    Seq::new(
        ds.len(),
        |i: int|
            if 0 <= i < ds.len() {
                fields_model(ds[i]@)
            } else {
                Seq::empty()
            },
    )
}

/// Whether these are exactly the parts the binder yields for the
/// many-document insert body.
pub open spec fn insert_many_parts_ok(
    v: SpecValue,
    db: Seq<char>,
    coll: Seq<char>,
    documents: Seq<Seq<(Seq<char>, SpecValue)>>,
    options: Option<Seq<(Seq<char>, SpecValue)>>,
) -> bool {
    match bind_spec(v->Document_0, insert_many_schema()) {
        BindOutcome::Done(s) => {
            &&& db == s[0]->0->Str_0
            &&& coll == s[1]->0->Str_0
            &&& s[2] is Some
            &&& documents == doc_seq(s[2]->0->Array_0)
            &&& options == match s[3] {
                Option::Some(o) => Option::Some(o->Document_0),
                Option::None => Option::None::<Seq<(Seq<char>, SpecValue)>>,
            }
        },
        _ => false,
    }
}

/// Whether these are exactly the parts the binder yields for an update
/// body.
pub open spec fn update_parts_ok(
    v: SpecValue,
    db: Seq<char>,
    coll: Seq<char>,
    query: Seq<(Seq<char>, SpecValue)>,
    update: Seq<(Seq<char>, SpecValue)>,
    options: Option<Seq<(Seq<char>, SpecValue)>>,
) -> bool {
    match bind_spec(v->Document_0, update_schema()) {
        BindOutcome::Done(s) => {
            &&& db == s[0]->0->Str_0
            &&& coll == s[1]->0->Str_0
            &&& s[2] is Some && query == s[2]->0->Document_0
            &&& s[3] is Some && update == s[3]->0->Document_0
            &&& options == match s[4] {
                Option::Some(o) => Option::Some(o->Document_0),
                Option::None => Option::None::<Seq<(Seq<char>, SpecValue)>>,
            }
        },
        _ => false,
    }
}

/// Takes a bound array-of-documents slot.
#[verifier::loop_isolation(false)]
fn expect_doc_array(o: Option<ExtendedValue>) -> (r: Vec<DocFields>)
    requires
        o is Some,
        shape_ok(FieldShape::DocArray, spec_value_of(o->0)),
    ensures
        docs_model(r@) == doc_seq(spec_value_of(o->0)->Array_0),
{
    proof {
        crate::value::lemma_model_variant(o->0);
    }
    match o {
        Option::Some(ExtendedValue::Array(xs)) => {
            let ghost em = spec_value_of(ExtendedValue::Array(xs))->Array_0;
            let n = xs.len();
            let mut out: Vec<DocFields> = Vec::new();
            let mut i: usize = 0;
            while i < n
                invariant
                    0 <= i <= n,
                    out@.len() == i,
                    forall|k: int|
                        0 <= k < i ==> fields_model((#[trigger] out@[k])@) == em[k]->Document_0,
                decreases n - i,
            {
                proof {
                    assert(em[i as int] == spec_value_of(xs@[i as int]));
                    crate::value::lemma_model_variant(xs@[i as int]);
                }
                match &xs[i] {
                    ExtendedValue::Document(d) => {
                        let c = crate::value::clone_fields(d);
                        proof {
                            assert(em[i as int]->Document_0 == fields_model(d@));
                            assert(fields_model(c@) =~= fields_model(d@));
                        }
                        out.push(c);
                    },
                    _ => {
                        return vstd::pervasive::unreached();
                    },
                }
                i = i + 1;
            }
            proof {
                assert(docs_model(out@) =~= doc_seq(em));
            }
            out
        },
        _ => vstd::pervasive::unreached(),
    }
}

/// The many-document insert operation's body.
pub struct InsertManyBody {
    pub db: String,
    pub collection: String,
    pub documents: Vec<DocFields>,
    pub options: Option<DocFields>,
}

impl InsertManyBody {
    /// Binds a decoded body for a many-document insert.
    #[verifier::rlimit(100)]
    #[verifier::spinoff_prover]
    pub fn bind(v: &ExtendedValue) -> (r: Result<InsertManyBody, ClassifiedError>)
        ensures
            r matches Ok(b) ==> (v@ is Document && insert_many_parts_ok(
                v@,
                b.db@,
                b.collection@,
                docs_model(b.documents@),
                opt_model(b.options),
            )),
            r matches Err(e) ==> bind_error_ok(v@, insert_many_schema(), e),
            r is Ok <==> (v@ is Document && bind_spec(v@->Document_0, insert_many_schema())
                is Done),
    {
        proof {
            crate::value::lemma_model_variant(*v);
        }
        let fs = match v {
            ExtendedValue::Document(fs) => fs,
            _ => {
                return Err(
                    ClassifiedError::MissingOrWrongTypedField(
                        String::from_str("invalid type: expected a document"),
                    ),
                );
            },
        };
        proof {
            assert(v@->Document_0 == fields_model(fs@));
        }
        let mut schema: Vec<FieldSpec> = Vec::new();
        schema.push(
            FieldSpec { name: String::from_str("db"), required: true, shape: FieldShape::Text },
        );
        schema.push(
            FieldSpec {
                name: String::from_str("collection"),
                required: true,
                shape: FieldShape::Text,
            },
        );
        schema.push(
            FieldSpec {
                name: String::from_str("documents"),
                required: true,
                shape: FieldShape::DocArray,
            },
        );
        schema.push(
            FieldSpec {
                name: String::from_str("options"),
                required: false,
                shape: FieldShape::Doc,
            },
        );
        proof {
            assert(schema_model(schema@) =~= insert_many_schema());
        }
        let ghost sm = insert_many_schema();
        match bind_fields(fs, &schema) {
            Err(e) => Err(e),
            Ok(mut out) => {
                let ghost s = crate::bind::bound_model(out@);
                proof {
                    crate::bind::lemma_bind_done(fields_model(fs@), sm, s);
                    assert(s.len() == 4);
                    assert(sm[0].1 && sm[1].1 && sm[2].1);
                    assert(s[0] is Some && shape_ok(FieldShape::Text, s[0]->0));
                    assert(s[1] is Some && shape_ok(FieldShape::Text, s[1]->0));
                    assert(s[2] is Some && shape_ok(FieldShape::DocArray, s[2]->0));
                    assert(s[3] is Some ==> shape_ok(FieldShape::Doc, s[3]->0));
                    assert(s.take(4) =~= s);
                }
                let o3 = pop_slot(&mut out, Ghost(s), Ghost(3));
                let o2 = pop_slot(&mut out, Ghost(s), Ghost(2));
                let o1 = pop_slot(&mut out, Ghost(s), Ghost(1));
                let o0 = pop_slot(&mut out, Ghost(s), Ghost(0));
                let options = expect_opt_doc(o3);
                let documents = expect_doc_array(o2);
                let collection = expect_text(o1);
                let db = expect_text(o0);
                Ok(InsertManyBody { db, collection, documents, options })
            },
        }
    }
}

/// Binds the shared update body shape.
#[verifier::rlimit(100)]
#[verifier::spinoff_prover]
fn bind_update(v: &ExtendedValue) -> (r: Result<
    (String, String, DocFields, DocFields, Option<DocFields>),
    ClassifiedError,
>)
    ensures
        r matches Ok(p) ==> (v@ is Document && update_parts_ok(
            v@,
            p.0@,
            p.1@,
            fields_model(p.2@),
            fields_model(p.3@),
            opt_model(p.4),
        )),
        r matches Err(e) ==> bind_error_ok(v@, update_schema(), e),
        r is Ok <==> (v@ is Document && bind_spec(v@->Document_0, update_schema()) is Done),
{
    proof {
        crate::value::lemma_model_variant(*v);
    }
    let fs = match v {
        ExtendedValue::Document(fs) => fs,
        _ => {
            return Err(
                ClassifiedError::MissingOrWrongTypedField(
                    String::from_str("invalid type: expected a document"),
                ),
            );
        },
    };
    proof {
        assert(v@->Document_0 == fields_model(fs@));
    }
    let mut schema: Vec<FieldSpec> = Vec::new();
    schema.push(
        FieldSpec { name: String::from_str("db"), required: true, shape: FieldShape::Text },
    );
    schema.push(
        FieldSpec {
            name: String::from_str("collection"),
            required: true,
            shape: FieldShape::Text,
        },
    );
    schema.push(
        FieldSpec { name: String::from_str("query"), required: true, shape: FieldShape::Doc },
    );
    schema.push(
        FieldSpec { name: String::from_str("update"), required: true, shape: FieldShape::Doc },
    );
    schema.push(
        FieldSpec { name: String::from_str("options"), required: false, shape: FieldShape::Doc },
    );
    proof {
        assert(schema_model(schema@) =~= update_schema());
    }
    let ghost sm = update_schema();
    match bind_fields(fs, &schema) {
        Err(e) => Err(e),
        Ok(mut out) => {
            let ghost s = crate::bind::bound_model(out@);
            proof {
                crate::bind::lemma_bind_done(fields_model(fs@), sm, s);
                assert(s.len() == 5);
                assert(sm[0].1 && sm[1].1 && sm[2].1 && sm[3].1);
                assert(s[0] is Some && shape_ok(FieldShape::Text, s[0]->0));
                assert(s[1] is Some && shape_ok(FieldShape::Text, s[1]->0));
                assert(s[2] is Some && shape_ok(FieldShape::Doc, s[2]->0));
                assert(s[3] is Some && shape_ok(FieldShape::Doc, s[3]->0));
                assert(s[4] is Some ==> shape_ok(FieldShape::Doc, s[4]->0));
                assert(s.take(5) =~= s);
            }
            let o4 = pop_slot(&mut out, Ghost(s), Ghost(4));
            let o3 = pop_slot(&mut out, Ghost(s), Ghost(3));
            let o2 = pop_slot(&mut out, Ghost(s), Ghost(2));
            let o1 = pop_slot(&mut out, Ghost(s), Ghost(1));
            let o0 = pop_slot(&mut out, Ghost(s), Ghost(0));
            let options = expect_opt_doc(o4);
            let update = expect_doc(o3);
            let query = expect_doc(o2);
            let coll = expect_text(o1);
            let db = expect_text(o0);
            Ok((db, coll, query, update, options))
        },
    }
}

/// The single-document update operation's body.
pub struct UpdateOneBody {
    pub db: String,
    pub collection: String,
    pub query: DocFields,
    pub update: DocFields,
    pub options: Option<DocFields>,
}

impl UpdateOneBody {
    /// Binds a decoded body for a single-document update.
    pub fn bind(v: &ExtendedValue) -> (r: Result<UpdateOneBody, ClassifiedError>)
        ensures
            r matches Ok(b) ==> (v@ is Document && update_parts_ok(
                v@,
                b.db@,
                b.collection@,
                fields_model(b.query@),
                fields_model(b.update@),
                opt_model(b.options),
            )),
            r matches Err(e) ==> bind_error_ok(v@, update_schema(), e),
            r is Ok <==> (v@ is Document && bind_spec(v@->Document_0, update_schema())
                is Done),
    {
        match bind_update(v) {
            Err(e) => Err(e),
            Ok((db, collection, query, update, options)) => Ok(
                UpdateOneBody { db, collection, query, update, options },
            ),
        }
    }
}

/// The many-document update operation's body.
pub struct UpdateManyBody {
    pub db: String,
    pub collection: String,
    pub query: DocFields,
    pub update: DocFields,
    pub options: Option<DocFields>,
}

impl UpdateManyBody {
    /// Binds a decoded body for a many-document update.
    pub fn bind(v: &ExtendedValue) -> (r: Result<UpdateManyBody, ClassifiedError>)
        ensures
            r matches Ok(b) ==> (v@ is Document && update_parts_ok(
                v@,
                b.db@,
                b.collection@,
                fields_model(b.query@),
                fields_model(b.update@),
                opt_model(b.options),
            )),
            r matches Err(e) ==> bind_error_ok(v@, update_schema(), e),
            r is Ok <==> (v@ is Document && bind_spec(v@->Document_0, update_schema())
                is Done),
    {
        match bind_update(v) {
            Err(e) => Err(e),
            Ok((db, collection, query, update, options)) => Ok(
                UpdateManyBody { db, collection, query, update, options },
            ),
        }
    }
}

} // verus!
