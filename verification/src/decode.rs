//! The executable decoder from generic JSON trees to extended values:
//! the type-wrapper rewrite, exactly as `dec_ok` and `dec_val` describe.

use vstd::prelude::*;

use crate::codec::dec_ok;
use crate::codec::dec_val;
use crate::json::JsonValue;
use crate::value::ExtendedValue;

verus! {

broadcast use vstd::std_specs::vec::group_vec_axioms;

/// Decodes every element of a JSON array, failing on the first element
/// the decoder rejects.
#[verifier::loop_isolation(false)]
fn json_array_to_extended(xs: &Vec<JsonValue>) -> (r: Option<Vec<ExtendedValue>>)
    ensures
        match r {
            Some(out) => {
                &&& out@.len() == xs@.len()
                &&& forall|k: int| 0 <= k < xs@.len() ==> dec_ok(#[trigger] xs@[k]@)
                &&& forall|k: int|
                    0 <= k < xs@.len() ==> #[trigger] out@[k]@ == dec_val(xs@[k]@)
            },
            None => exists|k: int| 0 <= k < xs@.len() && !dec_ok(#[trigger] xs@[k]@),
        },
    decreases *xs, 2nat,
{
    let n = xs.len();
    let mut out: Vec<ExtendedValue> = Vec::new();
    let mut i: usize = 0;
    while i < n
        invariant
            0 <= i <= n,
            out@.len() == i,
            forall|k: int| 0 <= k < i ==> dec_ok(#[trigger] xs@[k]@),
            forall|k: int| 0 <= k < i ==> #[trigger] out@[k]@ == dec_val(xs@[k]@),
        decreases n - i,
    {
        proof {
            assert(decreases_to!(*xs => xs@[i as int]));
        }
        match json_to_extended(&xs[i]) {
            Some(v) => {
                out.push(v);
            },
            None => {
                return None;
            },
        }
        i = i + 1;
    }
    Some(out)
}

/// Decodes every field value of a JSON object, keeping keys and order,
/// failing on the first value the decoder rejects.
#[verifier::loop_isolation(false)]
fn json_fields_to_extended(fs: &Vec<(String, JsonValue)>) -> (r: Option<
    Vec<(String, ExtendedValue)>,
>)
    ensures
        match r {
            Some(out) => {
                &&& out@.len() == fs@.len()
                &&& forall|k: int| 0 <= k < fs@.len() ==> dec_ok(#[trigger] fs@[k].1@)
                &&& forall|k: int|
                    0 <= k < fs@.len() ==> (#[trigger] out@[k]).0@ == fs@[k].0@
                        && out@[k].1@ == dec_val(fs@[k].1@)
            },
            None => exists|k: int| 0 <= k < fs@.len() && !dec_ok(#[trigger] fs@[k].1@),
        },
    decreases *fs, 2nat,
{
    let n = fs.len();
    let mut out: Vec<(String, ExtendedValue)> = Vec::new();
    let mut i: usize = 0;
    while i < n
        invariant
            0 <= i <= n,
            out@.len() == i,
            forall|k: int| 0 <= k < i ==> dec_ok(#[trigger] fs@[k].1@),
            forall|k: int|
                0 <= k < i ==> (#[trigger] out@[k]).0@ == fs@[k].0@ && out@[k].1@ == dec_val(
                    fs@[k].1@,
                ),
        decreases n - i,
    {
        proof {
            assert(decreases_to!(*fs => fs@[i as int]));
            assert(decreases_to!(fs@[i as int] => fs@[i as int].1));
        }
        match json_to_extended(&fs[i].1) {
            Some(v) => {
                let key = fs[i].0.clone();
                out.push((key, v));
            },
            None => {
                return None;
            },
        }
        i = i + 1;
    }
    Some(out)
}

/// Reinterprets a generic JSON tree as an extended value: recognized
/// type wrappers become their typed variants, bare integers become
/// `Int32` when they fit and `Int64` otherwise, other numbers become
/// `Double`, and remaining objects become documents. Fails exactly on a
/// recognized wrapper key with a payload of the wrong shape.
#[verifier::rlimit(60)]
pub fn json_to_extended(j: &JsonValue) -> (r: Option<ExtendedValue>)
    ensures
        r is Some <==> dec_ok(j@),
        r is Some ==> r->0@ == dec_val(j@),
    decreases *j, 2nat,
{
    match j {
        JsonValue::Null => Some(ExtendedValue::Null),
        JsonValue::Bool(b) => Some(ExtendedValue::Bool(*b)),
        JsonValue::Int(i) => {
            if -2147483648 <= *i && *i <= 2147483647 {
                Some(ExtendedValue::Int32(*i as i32))
            } else {
                Some(ExtendedValue::Int64(*i))
            }
        },
        JsonValue::Float(s) => Some(ExtendedValue::Double(s.clone())),
        JsonValue::Str(s) => Some(ExtendedValue::Str(s.clone())),
        JsonValue::Array(xs) => {
            proof {
                assert(decreases_to!(*j => *xs));
            }
            match json_array_to_extended(xs) {
                Some(out) => {
                    let r = ExtendedValue::Array(out);
                    proof {
                        let xj = j@->Array_0;
                        assert(forall|k: int|
                            0 <= k < xs@.len() ==> #[trigger] xj[k] == xs@[k]@);
                        assert forall|k: int| 0 <= k < xj.len() implies dec_ok(
                            #[trigger] xj[k],
                        ) by {
                            assert(xj[k] == xs@[k]@);
                        }
                        assert(dec_ok(j@));
                        let ra = r@->Array_0;
                        let da = dec_val(j@)->Array_0;
                        assert forall|k: int| 0 <= k < xs@.len() implies #[trigger] ra[k]
                            == da[k] by {
                            assert(ra[k] == out@[k]@);
                            assert(da[k] == dec_val(xj[k]));
                        }
                        assert(ra =~= da);
                        assert(r@ == dec_val(j@));
                    }
                    Some(r)
                },
                None => {
                    proof {
                        let xj = j@->Array_0;
                        let k = choose|k: int|
                            0 <= k < xs@.len() && !dec_ok(#[trigger] xs@[k]@);
                        assert(xj[k] == xs@[k]@);
                        assert(!dec_ok(j@));
                    }
                    None
                },
            }
        },
        JsonValue::Object(fs) => json_object_to_extended(j, fs),
    }
}

/// The object half of the decoder: wrapper recognition first, then the
/// plain-document walk.
#[verifier::rlimit(100)]
#[verifier::spinoff_prover]
fn json_object_to_extended(j: &JsonValue, fs: &Vec<(String, JsonValue)>) -> (r: Option<
    ExtendedValue,
>)
    requires
        *j == JsonValue::Object(*fs),
    ensures
        r is Some <==> dec_ok(j@),
        r is Some ==> r->0@ == dec_val(j@),
    decreases *j, 1nat,
{
    let ghost fj = j@->Object_0;
    proof {
        assert(fj.len() == fs@.len());
        assert(forall|k: int|
            0 <= k < fs@.len() ==> #[trigger] fj[k] == (fs@[k].0@, fs@[k].1@));
    }
    if fs.len() == 1 {
        let kv = &fs[0];
        if kv.0 == String::from_str("$numberLong") {
            match &kv.1 {
                JsonValue::Str(s) => {
                    match crate::numbers::parse_i64(s.as_str()) {
                        Some(i) => Some(ExtendedValue::Int64(i)),
                        None => None,
                    }
                },
                _ => None,
            }
        } else if kv.0 == String::from_str("$numberDouble") {
            match &kv.1 {
                JsonValue::Str(s) => Some(ExtendedValue::Double(s.clone())),
                _ => None,
            }
        } else if kv.0 == String::from_str("$numberDecimal") {
            match &kv.1 {
                JsonValue::Str(s) => Some(ExtendedValue::Decimal128(s.clone())),
                _ => None,
            }
        } else if kv.0 == String::from_str("$oid") {
            match &kv.1 {
                JsonValue::Str(s) => {
                    match crate::hex::parse_hex(s.as_str()) {
                        Some(b) => {
                            if b.len() == 12 {
                                Some(ExtendedValue::ObjectId(b))
                            } else {
                                None
                            }
                        },
                        None => None,
                    }
                },
                _ => None,
            }
        } else if kv.0 == String::from_str("$date") {
            match &kv.1 {
                JsonValue::Object(g) => {
                    if g.len() == 1 {
                        let inner = &g[0];
                        proof {
                            let gj = kv.1@->Object_0;
                            assert(gj.len() == g@.len());
                            assert(gj[0] == (g@[0].0@, g@[0].1@));
                        }
                        if inner.0 == String::from_str("$numberLong") {
                            match &inner.1 {
                                JsonValue::Str(s) => {
                                    match crate::numbers::parse_i64(s.as_str()) {
                                        Some(i) => Some(ExtendedValue::DateTime(i)),
                                        None => None,
                                    }
                                },
                                _ => None,
                            }
                        } else {
                            None
                        }
                    } else {
                        None
                    }
                },
                _ => None,
            }
        } else if kv.0 == String::from_str("$regularExpression") {
            match &kv.1 {
                JsonValue::Object(g) => {
                    if g.len() == 2 {
                        proof {
                            let gj = kv.1@->Object_0;
                            assert(gj.len() == g@.len());
                            assert(gj[0] == (g@[0].0@, g@[0].1@));
                            assert(gj[1] == (g@[1].0@, g@[1].1@));
                        }
                        let pat_ok = g[0].0 == String::from_str("pattern");
                        let opt_ok = g[1].0 == String::from_str("options");
                        if pat_ok && opt_ok {
                            match (&g[0].1, &g[1].1) {
                                (JsonValue::Str(p), JsonValue::Str(o)) => Some(
                                    ExtendedValue::Regex(p.clone(), o.clone()),
                                ),
                                _ => None,
                            }
                        } else {
                            None
                        }
                    } else {
                        None
                    }
                },
                _ => None,
            }
        } else if kv.0 == String::from_str("$binary") {
            match &kv.1 {
                JsonValue::Object(g) => {
                    if g.len() == 2 {
                        proof {
                            let gj = kv.1@->Object_0;
                            assert(gj.len() == g@.len());
                            assert(gj[0] == (g@[0].0@, g@[0].1@));
                            assert(gj[1] == (g@[1].0@, g@[1].1@));
                        }
                        let b64_ok = g[0].0 == String::from_str("base64");
                        let st_ok = g[1].0 == String::from_str("subType");
                        if b64_ok && st_ok {
                            match (&g[0].1, &g[1].1) {
                                (JsonValue::Str(bs), JsonValue::Str(st)) => {
                                    match crate::base64::parse_b64(bs.as_str()) {
                                        Some(payload) => {
                                            match crate::hex::parse_hex(st.as_str()) {
                                                Some(tv) => {
                                                    if tv.len() == 1 {
                                                        Some(
                                                            ExtendedValue::Binary(
                                                                tv[0],
                                                                payload,
                                                            ),
                                                        )
                                                    } else {
                                                        None
                                                    }
                                                },
                                                None => None,
                                            }
                                        },
                                        None => None,
                                    }
                                },
                                _ => None,
                            }
                        } else {
                            None
                        }
                    } else {
                        None
                    }
                },
                _ => None,
            }
        } else {
            decode_plain_object(j, fs)
        }
    } else {
        decode_plain_object(j, fs)
    }
}

/// The plain-document walk: every value decoded, keys and order kept.
fn decode_plain_object(j: &JsonValue, fs: &Vec<(String, JsonValue)>) -> (r: Option<
    ExtendedValue,
>)
    requires
        *j == JsonValue::Object(*fs),
        !(j@->Object_0.len() == 1 && crate::codec::is_wrapper_tag(j@->Object_0[0].0)),
    ensures
        r is Some <==> dec_ok(j@),
        r is Some ==> r->0@ == dec_val(j@),
    decreases *j, 0nat,
{
    proof {
        assert(decreases_to!(*j => *fs));
    }
    match json_fields_to_extended(fs) {
        Some(out) => {
            let r = ExtendedValue::Document(out);
            proof {
                let fj = j@->Object_0;
                assert(forall|k: int|
                    0 <= k < fs@.len() ==> #[trigger] fj[k] == (fs@[k].0@, fs@[k].1@));
                assert forall|k: int| 0 <= k < fj.len() implies dec_ok(
                    #[trigger] fj[k].1,
                ) by {
                    assert(fj[k] == (fs@[k].0@, fs@[k].1@));
                }
                assert(dec_ok(j@));
                let rd = r@->Document_0;
                let dd = dec_val(j@)->Document_0;
                assert forall|k: int| 0 <= k < fs@.len() implies #[trigger] rd[k]
                    == dd[k] by {
                    assert(rd[k] == (out@[k].0@, out@[k].1@));
                    assert(dd[k] == (fj[k].0, dec_val(fj[k].1)));
                }
                assert(rd =~= dd);
                assert(r@ == dec_val(j@));
            }
            Some(r)
        },
        None => {
            proof {
                let fj = j@->Object_0;
                let k = choose|k: int|
                    0 <= k < fs@.len() && !dec_ok(#[trigger] fs@[k].1@);
                assert(fj[k] == (fs@[k].0@, fs@[k].1@));
                assert(!dec_ok(fj[k].1));
                assert(!dec_ok(j@));
            }
            None
        },
    }
}

} // verus!
