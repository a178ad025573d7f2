//! The extended-value tree: the in-memory typed representation that the
//! codec produces and consumes.

use vstd::prelude::*;

verus! {

broadcast use vstd::std_specs::vec::group_vec_axioms;

/// A field list of an ordered document: keys with their values, in
/// insertion order.
pub type DocFields = Vec<(String, ExtendedValue)>;

/// A closed, recursive tagged union able to represent every value the
/// canonical Extended JSON wire format carries.
///
/// `Double` and `Decimal128` hold the decimal text of the number, exactly
/// as it appears in the wire format's wrapper payload; `ObjectId` holds the
/// twelve raw bytes; `DateTime` holds milliseconds since the epoch.
#[derive(Debug)]
pub enum ExtendedValue {
    Null,
    Bool(bool),
    Int32(i32),
    Int64(i64),
    Double(String),
    Str(String),
    Binary(u8, Vec<u8>),
    ObjectId(Vec<u8>),
    DateTime(i64),
    Regex(String, String),
    Decimal128(String),
    Array(Vec<ExtendedValue>),
    Document(DocFields),
}

/// The mathematical model of an extended value, with sequences in place of
/// vectors and character sequences in place of strings.
#[verifier::ext_equal]
pub enum SpecValue {
    Null,
    Bool(bool),
    Int32(i32),
    Int64(i64),
    Double(Seq<char>),
    Str(Seq<char>),
    Binary(u8, Seq<u8>),
    ObjectId(Seq<u8>),
    DateTime(i64),
    Regex(Seq<char>, Seq<char>),
    Decimal128(Seq<char>),
    Array(Seq<SpecValue>),
    Document(Seq<(Seq<char>, SpecValue)>),
}

/// The models of a vector of extended values, in order.
pub open spec fn elems_model(xs: Seq<ExtendedValue>) -> Seq<SpecValue>
    decreases xs,
{
    Seq::new(
        xs.len(),
        |i: int|
            if 0 <= i < xs.len() {
                spec_value_of(xs[i])
            } else {
                SpecValue::Null
            },
    )
}

/// The models of a field list: keys as character sequences, values as
/// model trees, in order.
pub open spec fn fields_model(fs: Seq<(String, ExtendedValue)>) -> Seq<
    (Seq<char>, SpecValue),
>
    decreases fs,
{
    Seq::new(
        fs.len(),
        |i: int|
            if 0 <= i < fs.len() {
                (fs[i].0@, spec_value_of(fs[i].1))
            } else {
                (Seq::empty(), SpecValue::Null)
            },
    )
}

/// The model of an extended value: the same tree over sequences.
pub open spec fn spec_value_of(v: ExtendedValue) -> SpecValue
    decreases v,
{
    match v {
        ExtendedValue::Null => SpecValue::Null,
        ExtendedValue::Bool(b) => SpecValue::Bool(b),
        ExtendedValue::Int32(i) => SpecValue::Int32(i),
        ExtendedValue::Int64(i) => SpecValue::Int64(i),
        ExtendedValue::Double(s) => SpecValue::Double(s@),
        ExtendedValue::Str(s) => SpecValue::Str(s@),
        ExtendedValue::Binary(t, b) => SpecValue::Binary(t, b@),
        ExtendedValue::ObjectId(b) => SpecValue::ObjectId(b@),
        ExtendedValue::DateTime(ms) => SpecValue::DateTime(ms),
        ExtendedValue::Regex(p, o) => SpecValue::Regex(p@, o@),
        ExtendedValue::Decimal128(s) => SpecValue::Decimal128(s@),
        ExtendedValue::Array(xs) => SpecValue::Array(elems_model(xs@)),
        ExtendedValue::Document(fs) => SpecValue::Document(fields_model(fs@)),
    }
}

impl View for ExtendedValue {
    type V = SpecValue;

    open spec fn view(&self) -> SpecValue {
        spec_value_of(*self)
    }
}

/// A deep copy of an extended value, with the same model.
#[verifier::loop_isolation(false)]
pub fn clone_value(v: &ExtendedValue) -> (r: ExtendedValue)
    ensures
        r@ == v@,
    decreases *v,
{
    match v {
        ExtendedValue::Null => ExtendedValue::Null,
        ExtendedValue::Bool(b) => ExtendedValue::Bool(*b),
        ExtendedValue::Int32(i) => ExtendedValue::Int32(*i),
        ExtendedValue::Int64(i) => ExtendedValue::Int64(*i),
        ExtendedValue::Double(s) => ExtendedValue::Double(s.clone()),
        ExtendedValue::Str(s) => ExtendedValue::Str(s.clone()),
        ExtendedValue::Binary(t, b) => ExtendedValue::Binary(*t, clone_bytes(b)),
        ExtendedValue::ObjectId(b) => ExtendedValue::ObjectId(clone_bytes(b)),
        ExtendedValue::DateTime(ms) => ExtendedValue::DateTime(*ms),
        ExtendedValue::Regex(p, o) => ExtendedValue::Regex(p.clone(), o.clone()),
        ExtendedValue::Decimal128(s) => ExtendedValue::Decimal128(s.clone()),
        ExtendedValue::Array(xs) => {
            let n = xs.len();
            let mut out: Vec<ExtendedValue> = Vec::new();
            let mut i: usize = 0;
            while i < n
                invariant
                    0 <= i <= n,
                    n == xs@.len(),
                    out@.len() == i,
                    forall|k: int| 0 <= k < i ==> (#[trigger] out@[k])@ == xs@[k]@,
                decreases n - i,
            {
                proof {
                    assert(decreases_to!(*v => *xs));
                    assert(decreases_to!(*xs => xs@[i as int]));
                }
                let c = clone_value(&xs[i]);
                out.push(c);
                i = i + 1;
            }
            let r = ExtendedValue::Array(out);
            proof {
                assert(r@->Array_0 =~= v@->Array_0);
                assert(r@ == v@);
            }
            r
        },
        ExtendedValue::Document(fs) => {
            let n = fs.len();
            let mut out: Vec<(String, ExtendedValue)> = Vec::new();
            let mut i: usize = 0;
            while i < n
                invariant
                    0 <= i <= n,
                    n == fs@.len(),
                    out@.len() == i,
                    forall|k: int|
                        0 <= k < i ==> (#[trigger] out@[k]).0@ == fs@[k].0@
                            && out@[k].1@ == fs@[k].1@,
                decreases n - i,
            {
                proof {
                    assert(decreases_to!(*v => *fs));
                    assert(decreases_to!(*fs => fs@[i as int]));
                    assert(decreases_to!(fs@[i as int] => fs@[i as int].1));
                }
                let key = fs[i].0.clone();
                let c = clone_value(&fs[i].1);
                out.push((key, c));
                i = i + 1;
            }
            let r = ExtendedValue::Document(out);
            proof {
                assert(r@->Document_0 =~= v@->Document_0);
                assert(r@ == v@);
            }
            r
        },
    }
}

/// A copy of a byte vector.
pub fn clone_bytes(b: &Vec<u8>) -> (r: Vec<u8>)
    ensures
        r@ == b@,
{
    let n = b.len();
    let mut out: Vec<u8> = Vec::new();
    let mut i: usize = 0;
    while i < n
        invariant
            0 <= i <= n,
            n == b@.len(),
            out@ == b@.take(i as int),
        decreases n - i,
    {
        out.push(b[i]);
        proof {
            assert(b@.take(i + 1) =~= b@.take(i as int).push(b@[i as int]));
        }
        i = i + 1;
    }
    proof {
        assert(b@.take(n as int) =~= b@);
    }
    out
}

/// A deep copy of a field list, with the same model.
pub fn clone_fields(fs: &DocFields) -> (r: DocFields)
    ensures
        r@.len() == fs@.len(),
        forall|k: int|
            0 <= k < fs@.len() ==> (#[trigger] r@[k]).0@ == fs@[k].0@ && r@[k].1@
                == fs@[k].1@,
{
    let n = fs.len();
    let mut out: DocFields = Vec::new();
    let mut i: usize = 0;
    while i < n
        invariant
            0 <= i <= n,
            n == fs@.len(),
            out@.len() == i,
            forall|k: int|
                0 <= k < i ==> (#[trigger] out@[k]).0@ == fs@[k].0@ && out@[k].1@
                    == fs@[k].1@,
        decreases n - i,
    {
        let key = fs[i].0.clone();
        let c = clone_value(&fs[i].1);
        out.push((key, c));
        i = i + 1;
    }
    out
}

/// The model's variant follows the value's variant.
pub proof fn lemma_model_variant(v: ExtendedValue)
    ensures
        v is Str <==> spec_value_of(v) is Str,
        v is Document <==> spec_value_of(v) is Document,
        v is Array <==> spec_value_of(v) is Array,
{
    match v {
        ExtendedValue::Null => {},
        ExtendedValue::Bool(_) => {},
        ExtendedValue::Int32(_) => {},
        ExtendedValue::Int64(_) => {},
        ExtendedValue::Double(_) => {},
        ExtendedValue::Str(_) => {},
        ExtendedValue::Binary(_, _) => {},
        ExtendedValue::ObjectId(_) => {},
        ExtendedValue::DateTime(_) => {},
        ExtendedValue::Regex(_, _) => {},
        ExtendedValue::Decimal128(_) => {},
        ExtendedValue::Array(_) => {},
        ExtendedValue::Document(_) => {},
    }
}

} // verus!
