//! The typed result structures and their projection back into extended
//! values, used for constructing response bodies. Unbinding is total.

use vstd::prelude::*;

use crate::value::DocFields;
use crate::value::ExtendedValue;
use crate::value::SpecValue;
use crate::value::elems_model;
use crate::value::fields_model;
use crate::value::spec_value_of;

verus! {

broadcast use vstd::std_specs::vec::group_vec_axioms;

/// What a single-document insert reports: the stored document's id.
pub struct InsertOneResult {
    pub inserted_id: ExtendedValue,
}

impl InsertOneResult {
    /// Projects the result into its response body.
    pub fn unbind(self) -> (r: ExtendedValue)
        ensures
            r@ == SpecValue::Document(
                seq![("inserted_id"@, spec_value_of(self.inserted_id))],
            ),
    {
        let ghost iv = spec_value_of(self.inserted_id);
        let mut fields: DocFields = Vec::new();
        fields.push((String::from_str("inserted_id"), self.inserted_id));
        let r = ExtendedValue::Document(fields);
        proof {
            assert(r@->Document_0 =~= seq![("inserted_id"@, iv)]);
        }
        r
    }
}

/// What a many-document insert reports: the stored documents' ids, in
/// input order.
pub struct InsertManyResult {
    pub inserted_ids: Vec<ExtendedValue>,
}

impl InsertManyResult {
    /// Projects the result into its response body.
    pub fn unbind(self) -> (r: ExtendedValue)
        ensures
            r@ == SpecValue::Document(
                seq![
                    ("inserted_ids"@, SpecValue::Array(elems_model(self.inserted_ids@))),
                ],
            ),
    {
        let ghost ids = elems_model(self.inserted_ids@);
        let mut fields: DocFields = Vec::new();
        fields.push((String::from_str("inserted_ids"), ExtendedValue::Array(self.inserted_ids)));
        let r = ExtendedValue::Document(fields);
        proof {
            assert(fields@.len() == 1);
            let f0 = fields@[0];
            assert(f0.0@ == "inserted_ids"@);
            assert(f0.1 is Array);
            assert(spec_value_of(f0.1) == SpecValue::Array(ids));
            assert(r@->Document_0 =~= seq![("inserted_ids"@, SpecValue::Array(ids))]);
        }
        r
    }
}

/// What an update reports: how many documents matched and were modified,
/// and the id of an upserted document when one was created.
pub struct UpdateResult {
    pub matched_count: i64,
    pub modified_count: i64,
    pub upserted_id: Option<ExtendedValue>,
}

/// The body shape of an update result.
pub open spec fn update_result_body(
    matched: i64,
    modified: i64,
    upserted: Option<ExtendedValue>,
) -> SpecValue {
    match upserted {
        Option::Some(id) => SpecValue::Document(
            seq![
                ("matchedCount"@, SpecValue::Int64(matched)),
                ("modifiedCount"@, SpecValue::Int64(modified)),
                ("upsertedId"@, spec_value_of(id)),
            ],
        ),
        Option::None => SpecValue::Document(
            seq![
                ("matchedCount"@, SpecValue::Int64(matched)),
                ("modifiedCount"@, SpecValue::Int64(modified)),
            ],
        ),
    }
}

impl UpdateResult {
    /// Projects the result into its response body; the upserted id
    /// appears only when there is one.
    pub fn unbind(self) -> (r: ExtendedValue)
        ensures
            r@ == update_result_body(self.matched_count, self.modified_count, self.upserted_id),
    {
        let mut fields: DocFields = Vec::new();
        fields.push((String::from_str("matchedCount"), ExtendedValue::Int64(self.matched_count)));
        fields.push(
            (String::from_str("modifiedCount"), ExtendedValue::Int64(self.modified_count)),
        );
        match self.upserted_id {
            Option::Some(id) => {
                let ghost iv = spec_value_of(id);
                fields.push((String::from_str("upsertedId"), id));
                let r = ExtendedValue::Document(fields);
                proof {
                    assert(fields@.len() == 3);
                    let f0 = fields@[0];
                    let f1 = fields@[1];
                    let f2 = fields@[2];
                    assert(f0.0@ == "matchedCount"@ && spec_value_of(f0.1)
                        == SpecValue::Int64(self.matched_count));
                    assert(f1.0@ == "modifiedCount"@ && spec_value_of(f1.1)
                        == SpecValue::Int64(self.modified_count));
                    assert(f2.0@ == "upsertedId"@ && spec_value_of(f2.1) == iv);
                    assert(r@->Document_0 =~= seq![
                        ("matchedCount"@, SpecValue::Int64(self.matched_count)),
                        ("modifiedCount"@, SpecValue::Int64(self.modified_count)),
                        ("upsertedId"@, iv),
                    ]);
                }
                r
            },
            Option::None => {
                let r = ExtendedValue::Document(fields);
                proof {
                    assert(fields@.len() == 2);
                    let f0 = fields@[0];
                    let f1 = fields@[1];
                    assert(f0.0@ == "matchedCount"@ && spec_value_of(f0.1)
                        == SpecValue::Int64(self.matched_count));
                    assert(f1.0@ == "modifiedCount"@ && spec_value_of(f1.1)
                        == SpecValue::Int64(self.modified_count));
                    assert(r@->Document_0 =~= seq![
                        ("matchedCount"@, SpecValue::Int64(self.matched_count)),
                        ("modifiedCount"@, SpecValue::Int64(self.modified_count)),
                    ]);
                }
                r
            },
        }
    }
}

/// What a delete reports: how many documents were deleted.
pub struct DeleteResult {
    pub deleted_count: i64,
}

impl DeleteResult {
    /// Projects the result into its response body.
    pub fn unbind(self) -> (r: ExtendedValue)
        ensures
            r@ == SpecValue::Document(
                seq![("deletedCount"@, SpecValue::Int64(self.deleted_count))],
            ),
    {
        let mut fields: DocFields = Vec::new();
        fields.push((String::from_str("deletedCount"), ExtendedValue::Int64(self.deleted_count)));
        let r = ExtendedValue::Document(fields);
        proof {
            assert(fields@.len() == 1);
            let f0 = fields@[0];
            assert(f0.0@ == "deletedCount"@ && spec_value_of(f0.1) == SpecValue::Int64(
                self.deleted_count,
            ));
            assert(r@->Document_0 =~= seq![
                ("deletedCount"@, SpecValue::Int64(self.deleted_count)),
            ]);
        }
        r
    }
}

/// Projects a single-document find's result: the document found, or null
/// when there is none.
pub fn unbind_find_one(found: Option<DocFields>) -> (r: ExtendedValue)
    ensures
        (match found {
            Option::Some(d) => r@ == SpecValue::Document(fields_model(d@)),
            Option::None => r@ == SpecValue::Null,
        }),
{
    match found {
        Option::Some(d) => ExtendedValue::Document(d),
        Option::None => ExtendedValue::Null,
    }
}

/// Projects a find's result: the documents found, in order, as an array.
#[verifier::loop_isolation(false)]
pub fn unbind_find(found: &Vec<DocFields>) -> (r: ExtendedValue)
    ensures
        r@ is Array,
        r@->Array_0.len() == found@.len(),
        forall|k: int|
            0 <= k < found@.len() ==> #[trigger] r@->Array_0[k] == SpecValue::Document(
                fields_model(found@[k]@),
            ),
{
    let n = found.len();
    let mut elems: Vec<ExtendedValue> = Vec::new();
    let mut i: usize = 0;
    while i < n
        invariant
            0 <= i <= n,
            elems@.len() == i,
            forall|k: int|
                0 <= k < i ==> spec_value_of(#[trigger] elems@[k]) == SpecValue::Document(
                    fields_model(found@[k]@),
                ),
        decreases n - i,
    {
        let c = crate::value::clone_fields(&found[i]);
        proof {
            assert(fields_model(c@) =~= fields_model(found@[i as int]@));
        }
        elems.push(ExtendedValue::Document(c));
        i = i + 1;
    }
    let r = ExtendedValue::Array(elems);
    proof {
        assert(forall|k: int|
            0 <= k < found@.len() ==> #[trigger] r@->Array_0[k] == spec_value_of(elems@[k]));
    }
    r
}

} // verus!
