//! Rendering a generic JSON tree as canonical text, and the executable
//! encoder that writes an extended value straight to wire bytes.
//! Encoding is total and deterministic: structurally equal values give
//! byte-identical output.

use vstd::prelude::*;

use crate::base64::b64_bytes;
use crate::codec::enc;
use crate::hex::hex_bytes;
use crate::json::SpecJson;
use crate::numbers::ascii_chars;
use crate::numbers::int_bytes;
use crate::text::all_plain_bytes;
use crate::text::escape;
use crate::text::push_escaped;
use crate::text::push_str_bytes;
use crate::value::ExtendedValue;
use crate::value::SpecValue;

verus! {

broadcast use vstd::std_specs::vec::group_vec_axioms;

/// The canonical JSON text of a generic JSON tree, as UTF-8 bytes: no
/// whitespace, keys and elements in order, strings escaped.
pub open spec fn render(j: SpecJson) -> Seq<u8>
    decreases j,
{
    match j {
        SpecJson::Null => vstd::utf8::encode_utf8("null"@),
        SpecJson::Bool(b) => {
            if b {
                vstd::utf8::encode_utf8("true"@)
            } else {
                vstd::utf8::encode_utf8("false"@)
            }
        },
        SpecJson::Int(i) => int_bytes(i as int),
        SpecJson::Float(s) => vstd::utf8::encode_utf8(s),
        SpecJson::Str(s) => seq![34u8] + escape(vstd::utf8::encode_utf8(s)) + seq![34u8],
        SpecJson::Array(xs) => seq![91u8] + render_elems(xs) + seq![93u8],
        SpecJson::Object(fs) => seq![123u8] + render_fields(fs) + seq![125u8],
    }
}

/// The elements of an array, comma-separated.
pub open spec fn render_elems(xs: Seq<SpecJson>) -> Seq<u8>
    decreases xs,
{
    if xs.len() == 0 {
        Seq::empty()
    } else if xs.len() == 1 {
        render(xs[0])
    } else {
        render_elems(xs.drop_last()) + seq![44u8] + render(xs.last())
    }
}

/// One `"key":value` pair.
pub open spec fn render_field(kv: (Seq<char>, SpecJson)) -> Seq<u8>
    decreases kv,
{
    seq![34u8] + escape(vstd::utf8::encode_utf8(kv.0)) + seq![34u8, 58u8] + render(kv.1)
}

/// The fields of an object, comma-separated, in order.
pub open spec fn render_fields(fs: Seq<(Seq<char>, SpecJson)>) -> Seq<u8>
    decreases fs,
{
    if fs.len() == 0 {
        Seq::empty()
    } else if fs.len() == 1 {
        render_field(fs[0])
    } else {
        render_fields(fs.drop_last()) + seq![44u8] + render_field(fs.last())
    }
}

/// The canonical wire bytes of an extended value.
pub open spec fn encode_spec(v: SpecValue) -> Seq<u8> {
    render(enc(v))
}

/// A payload of signs and digits passes through string escaping as its
/// own characters.
proof fn lemma_int_payload(i: int)
    ensures
        escape(vstd::utf8::encode_utf8(ascii_chars(int_bytes(i)))) == int_bytes(i),
{
    crate::numbers::lemma_int_bytes_low(i);
    crate::numbers::lemma_ascii_chars_utf8(int_bytes(i));
    assert(all_plain_bytes(int_bytes(i))) by {
        assert(forall|j: int|
            0 <= j < int_bytes(i).len() ==> 45 <= #[trigger] int_bytes(i)[j] <= 57);
    }
    crate::text::lemma_escape_plain(int_bytes(i));
}

/// A payload of hex digits passes through string escaping as its own
/// characters.
proof fn lemma_hex_payload(b: Seq<u8>)
    ensures
        escape(vstd::utf8::encode_utf8(ascii_chars(hex_bytes(b)))) == hex_bytes(b),
{
    crate::hex::lemma_hex_bytes_props(b);
    crate::numbers::lemma_ascii_chars_utf8(hex_bytes(b));
    assert(all_plain_bytes(hex_bytes(b))) by {
        assert(forall|j: int|
            0 <= j < hex_bytes(b).len() ==> crate::hex::is_hex_digit_byte(
                #[trigger] hex_bytes(b)[j],
            ));
    }
    crate::text::lemma_escape_plain(hex_bytes(b));
}

/// A base64 payload passes through string escaping as its own
/// characters.
proof fn lemma_b64_payload(b: Seq<u8>)
    ensures
        escape(vstd::utf8::encode_utf8(ascii_chars(b64_bytes(b)))) == b64_bytes(b),
{
    crate::base64::lemma_b64_bytes_plain(b);
    crate::numbers::lemma_ascii_chars_utf8(b64_bytes(b));
    crate::text::lemma_escape_plain(b64_bytes(b));
}

/// The text of a single-key wrapper object, assembled.
proof fn lemma_render_wrapper(tag: Seq<char>, payload: SpecJson)
    ensures
        render(SpecJson::Object(seq![(tag, payload)])) == seq![123u8, 34u8] + escape(
            vstd::utf8::encode_utf8(tag),
        ) + seq![34u8, 58u8] + render(payload) + seq![125u8],
{
    let kv = (tag, payload);
    let fs = seq![kv];
    assert(fs.len() == 1);
    assert(fs[0] == kv);
    assert(render_fields(fs) == render_field(kv));
    assert(render(SpecJson::Object(fs)) == seq![123u8] + render_fields(fs) + seq![125u8]);
    assert(seq![123u8] + (seq![34u8] + escape(vstd::utf8::encode_utf8(tag)) + seq![
        34u8,
        58u8,
    ] + render(payload)) + seq![125u8] =~= seq![123u8, 34u8] + escape(
        vstd::utf8::encode_utf8(tag),
    ) + seq![34u8, 58u8] + render(payload) + seq![125u8]);
}

/// The text of a two-key object, assembled.
proof fn lemma_render_pair(k1: Seq<char>, v1: SpecJson, k2: Seq<char>, v2: SpecJson)
    ensures
        render(SpecJson::Object(seq![(k1, v1), (k2, v2)])) == seq![123u8] + render_field(
            (k1, v1),
        ) + seq![44u8] + render_field((k2, v2)) + seq![125u8],
{
    let fs = seq![(k1, v1), (k2, v2)];
    assert(fs.len() == 2);
    assert(fs.drop_last() =~= seq![(k1, v1)]);
    assert(fs.last() == (k2, v2));
    assert(render_fields(fs.drop_last()) == render_field((k1, v1)));
    assert(render_fields(fs) == render_fields(fs.drop_last()) + seq![44u8] + render_field(
        fs.last(),
    ));
    assert(render(SpecJson::Object(fs)) == seq![123u8] + render_fields(fs) + seq![125u8]);
}

/// The encodings of a vector's elements, in order.
pub open spec fn enc_elems(xs: Seq<ExtendedValue>) -> Seq<SpecJson> {
    Seq::new(
        xs.len(),
        |i: int|
            if 0 <= i < xs.len() {
                enc(xs[i]@)
            } else {
                SpecJson::Null
            },
    )
}

/// The encodings of a field list's values, keys kept, in order.
pub open spec fn enc_fields(fs: Seq<(String, ExtendedValue)>) -> Seq<(Seq<char>, SpecJson)> {
    Seq::new(
        fs.len(),
        |i: int|
            if 0 <= i < fs.len() {
                (fs[i].0@, enc(fs[i].1@))
            } else {
                (Seq::<char>::empty(), SpecJson::Null)
            },
    )
}

/// Appends the wrapped `$numberLong` form of a 64-bit integer.
fn write_int64(i: i64, out: &mut Vec<u8>)
    ensures
        final(out)@ == old(out)@ + encode_spec(SpecValue::Int64(i)),
{
    out.push(123);
    out.push(34);
    push_escaped("$numberLong", out);
    out.push(34);
    out.push(58);
    out.push(34);
    crate::numbers::push_int_bytes(i, out);
    out.push(34);
    out.push(125);
    proof {
        lemma_int_payload(i as int);
        lemma_render_wrapper(
            crate::codec::tag_long(),
            SpecJson::Str(ascii_chars(int_bytes(i as int))),
        );
        assert(out@ =~= old(out)@ + encode_spec(SpecValue::Int64(i)));
    }
}

/// Appends the wrapped `$numberDouble` form of a double's decimal text.
fn write_double(s: &String, out: &mut Vec<u8>)
    ensures
        final(out)@ == old(out)@ + encode_spec(SpecValue::Double(s@)),
{
    out.push(123);
    out.push(34);
    push_escaped("$numberDouble", out);
    out.push(34);
    out.push(58);
    out.push(34);
    push_escaped(s.as_str(), out);
    out.push(34);
    out.push(125);
    proof {
        lemma_render_wrapper(crate::codec::tag_double(), SpecJson::Str(s@));
        assert(out@ =~= old(out)@ + encode_spec(SpecValue::Double(s@)));
    }
}

/// Appends the wrapped `$numberDecimal` form of a decimal's text.
fn write_decimal(s: &String, out: &mut Vec<u8>)
    ensures
        final(out)@ == old(out)@ + encode_spec(SpecValue::Decimal128(s@)),
{
    out.push(123);
    out.push(34);
    push_escaped("$numberDecimal", out);
    out.push(34);
    out.push(58);
    out.push(34);
    push_escaped(s.as_str(), out);
    out.push(34);
    out.push(125);
    proof {
        lemma_render_wrapper(crate::codec::tag_decimal(), SpecJson::Str(s@));
        assert(out@ =~= old(out)@ + encode_spec(SpecValue::Decimal128(s@)));
    }
}

/// Appends the wrapped `$oid` form of an id's bytes, as lowercase hex.
fn write_object_id(b: &Vec<u8>, out: &mut Vec<u8>)
    ensures
        final(out)@ == old(out)@ + encode_spec(SpecValue::ObjectId(b@)),
{
    out.push(123);
    out.push(34);
    push_escaped("$oid", out);
    out.push(34);
    out.push(58);
    out.push(34);
    crate::hex::push_hex_bytes(b, out);
    out.push(34);
    out.push(125);
    proof {
        lemma_hex_payload(b@);
        lemma_render_wrapper(
            crate::codec::tag_oid(),
            SpecJson::Str(ascii_chars(hex_bytes(b@))),
        );
        assert(out@ =~= old(out)@ + encode_spec(SpecValue::ObjectId(b@)));
    }
}

/// Appends the wrapped `$binary` form of a subtype and payload.
#[verifier::rlimit(100)]
#[verifier::spinoff_prover]
fn write_binary(t: u8, b: &Vec<u8>, out: &mut Vec<u8>)
    ensures
        final(out)@ == old(out)@ + encode_spec(SpecValue::Binary(t, b@)),
{
    out.push(123);
    out.push(34);
    push_escaped("$binary", out);
    out.push(34);
    out.push(58);
    out.push(123);
    out.push(34);
    push_escaped("base64", out);
    out.push(34);
    out.push(58);
    out.push(34);
    crate::base64::push_b64_bytes(b, out);
    out.push(34);
    out.push(44);
    out.push(34);
    push_escaped("subType", out);
    out.push(34);
    out.push(58);
    out.push(34);
    let mut tv: Vec<u8> = Vec::new();
    tv.push(t);
    crate::hex::push_hex_bytes(&tv, out);
    out.push(34);
    out.push(125);
    out.push(125);
    proof {
        assert(tv@ =~= seq![t]);
        lemma_b64_payload(b@);
        lemma_hex_payload(seq![t]);
        let inner = SpecJson::Object(
            seq![
                (
                    crate::codec::key_base64(),
                    SpecJson::Str(ascii_chars(b64_bytes(b@))),
                ),
                (
                    crate::codec::key_subtype(),
                    SpecJson::Str(ascii_chars(hex_bytes(seq![t]))),
                ),
            ],
        );
        lemma_render_pair(
            crate::codec::key_base64(),
            SpecJson::Str(ascii_chars(b64_bytes(b@))),
            crate::codec::key_subtype(),
            SpecJson::Str(ascii_chars(hex_bytes(seq![t]))),
        );
        lemma_render_wrapper(crate::codec::tag_binary(), inner);
        assert(out@ =~= old(out)@ + encode_spec(SpecValue::Binary(t, b@)));
    }
}

/// Appends the wrapped `$date` form of a millisecond timestamp.
fn write_datetime(ms: i64, out: &mut Vec<u8>)
    ensures
        final(out)@ == old(out)@ + encode_spec(SpecValue::DateTime(ms)),
{
    out.push(123);
    out.push(34);
    push_escaped("$date", out);
    out.push(34);
    out.push(58);
    write_int64(ms, out);
    out.push(125);
    proof {
        lemma_render_wrapper(
            crate::codec::tag_date(),
            SpecJson::Object(
                seq![
                    (
                        crate::codec::tag_long(),
                        SpecJson::Str(ascii_chars(int_bytes(ms as int))),
                    ),
                ],
            ),
        );
        assert(out@ =~= old(out)@ + encode_spec(SpecValue::DateTime(ms)));
    }
}

/// Appends the wrapped `$regularExpression` form of a pattern and its
/// options.
#[verifier::rlimit(100)]
#[verifier::spinoff_prover]
fn write_regex(p: &String, o: &String, out: &mut Vec<u8>)
    ensures
        final(out)@ == old(out)@ + encode_spec(SpecValue::Regex(p@, o@)),
{
    out.push(123);
    out.push(34);
    push_escaped("$regularExpression", out);
    out.push(34);
    out.push(58);
    out.push(123);
    out.push(34);
    push_escaped("pattern", out);
    out.push(34);
    out.push(58);
    out.push(34);
    push_escaped(p.as_str(), out);
    out.push(34);
    out.push(44);
    out.push(34);
    push_escaped("options", out);
    out.push(34);
    out.push(58);
    out.push(34);
    push_escaped(o.as_str(), out);
    out.push(34);
    out.push(125);
    out.push(125);
    proof {
        let inner = SpecJson::Object(
            seq![
                (crate::codec::key_pattern(), SpecJson::Str(p@)),
                (crate::codec::key_options(), SpecJson::Str(o@)),
            ],
        );
        lemma_render_pair(
            crate::codec::key_pattern(),
            SpecJson::Str(p@),
            crate::codec::key_options(),
            SpecJson::Str(o@),
        );
        lemma_render_wrapper(crate::codec::tag_regex(), inner);
        assert(out@ =~= old(out)@ + encode_spec(SpecValue::Regex(p@, o@)));
    }
}

/// Appends the canonical wire text of `v` to `out`.
pub fn encode_value(v: &ExtendedValue, out: &mut Vec<u8>)
    ensures
        final(out)@ == old(out)@ + encode_spec(v@),
    decreases v,
{
    match v {
        ExtendedValue::Null => {
            push_str_bytes("null", out);
        },
        ExtendedValue::Bool(b) => {
            if *b {
                push_str_bytes("true", out);
            } else {
                push_str_bytes("false", out);
            }
        },
        ExtendedValue::Int32(i) => {
            crate::numbers::push_int_bytes(*i as i64, out);
        },
        ExtendedValue::Int64(i) => {
            write_int64(*i, out);
        },
        ExtendedValue::Double(s) => {
            write_double(s, out);
        },
        ExtendedValue::Str(s) => {
            out.push(34);
            push_escaped(s.as_str(), out);
            out.push(34);
            proof {
                assert(out@ =~= old(out)@ + encode_spec(v@));
            }
        },
        ExtendedValue::Binary(t, b) => {
            write_binary(*t, b, out);
        },
        ExtendedValue::ObjectId(b) => {
            write_object_id(b, out);
        },
        ExtendedValue::DateTime(ms) => {
            write_datetime(*ms, out);
        },
        ExtendedValue::Regex(p, o) => {
            write_regex(p, o, out);
        },
        ExtendedValue::Decimal128(s) => {
            write_decimal(s, out);
        },
        ExtendedValue::Array(xs) => {
            proof {
                assert(decreases_to!(*v => *xs));
            }
            encode_array(xs, out);
            proof {
                let vxs = v@->Array_0;
                let ea = enc(v@)->Array_0;
                assert(vxs.len() == xs@.len() && ea.len() == xs@.len());
                assert forall|k: int| 0 <= k < xs@.len() implies #[trigger] ea[k]
                    == enc_elems(xs@)[k] by {
                    assert(vxs[k] == xs@[k]@);
                    assert(ea[k] == enc(vxs[k]));
                    assert(enc_elems(xs@)[k] == enc(xs@[k]@));
                }
                assert(ea =~= enc_elems(xs@));
                assert(out@ =~= old(out)@ + encode_spec(v@));
            }
        },
        ExtendedValue::Document(fs) => {
            proof {
                assert(decreases_to!(*v => *fs));
            }
            encode_document(fs, out);
            proof {
                let vfs = v@->Document_0;
                let ea = enc(v@)->Object_0;
                assert(vfs.len() == fs@.len() && ea.len() == fs@.len());
                assert forall|k: int| 0 <= k < fs@.len() implies #[trigger] ea[k]
                    == enc_fields(fs@)[k] by {
                    assert(vfs[k] == (fs@[k].0@, fs@[k].1@));
                    assert(ea[k] == (vfs[k].0, enc(vfs[k].1)));
                    assert(enc_fields(fs@)[k] == (fs@[k].0@, enc(fs@[k].1@)));
                }
                assert(ea =~= enc_fields(fs@));
                assert(out@ =~= old(out)@ + encode_spec(v@));
            }
        },
    }
}

/// Appends a JSON array holding the canonical text of each element.
#[verifier::loop_isolation(false)]
pub fn encode_array(xs: &Vec<ExtendedValue>, out: &mut Vec<u8>)
    ensures
        final(out)@ == old(out)@ + seq![91u8] + render_elems(enc_elems(xs@)) + seq![93u8],
    decreases *xs,
{
    let ghost ej = enc_elems(xs@);
    out.push(91);
    let n = xs.len();
    let mut i: usize = 0;
    proof {
        assert(ej.take(0) =~= Seq::<SpecJson>::empty());
        assert(out@ =~= old(out)@ + seq![91u8] + render_elems(ej.take(0)));
    }
    while i < n
        invariant
            0 <= i <= n,
            out@ == old(out)@ + seq![91u8] + render_elems(ej.take(i as int)),
        decreases n - i,
    {
        if i > 0 {
            out.push(44);
        }
        proof {
            assert(decreases_to!(*xs => xs@[i as int]));
        }
        encode_value(&xs[i], out);
        proof {
            let t = ej.take(i + 1);
            assert(ej[i as int] == enc(xs@[i as int]@));
            if i == 0 {
                assert(render_elems(t) == render(ej[0]));
            } else {
                assert(t.drop_last() =~= ej.take(i as int));
                assert(t.last() == ej[i as int]);
                assert(render_elems(t) == render_elems(ej.take(i as int)) + seq![44u8]
                    + render(ej[i as int]));
            }
            assert(out@ =~= old(out)@ + seq![91u8] + render_elems(t));
        }
        i = i + 1;
    }
    out.push(93);
    proof {
        assert(ej.take(n as int) =~= ej);
        assert(out@ =~= old(out)@ + seq![91u8] + render_elems(ej) + seq![93u8]);
    }
}

/// Appends a JSON object holding each field's key and the canonical text
/// of its value, in order.
#[verifier::loop_isolation(false)]
pub fn encode_document(fs: &Vec<(String, ExtendedValue)>, out: &mut Vec<u8>)
    ensures
        final(out)@ == old(out)@ + seq![123u8] + render_fields(enc_fields(fs@)) + seq![125u8],
    decreases *fs,
{
    let ghost gj = enc_fields(fs@);
    out.push(123);
    let n = fs.len();
    let mut i: usize = 0;
    proof {
        assert(gj.take(0) =~= Seq::<(Seq<char>, SpecJson)>::empty());
        assert(out@ =~= old(out)@ + seq![123u8] + render_fields(gj.take(0)));
    }
    while i < n
        invariant
            0 <= i <= n,
            out@ == old(out)@ + seq![123u8] + render_fields(gj.take(i as int)),
        decreases n - i,
    {
        if i > 0 {
            out.push(44);
        }
        out.push(34);
        push_escaped(fs[i].0.as_str(), out);
        out.push(34);
        out.push(58);
        proof {
            assert(decreases_to!(*fs => fs@[i as int]));
            assert(decreases_to!(fs@[i as int] => fs@[i as int].1));
        }
        encode_value(&fs[i].1, out);
        proof {
            let t = gj.take(i + 1);
            assert(gj[i as int] == (fs@[i as int].0@, enc(fs@[i as int].1@)));
            assert(render_field(gj[i as int]) == seq![34u8] + escape(
                vstd::utf8::encode_utf8(fs@[i as int].0@),
            ) + seq![34u8, 58u8] + render(enc(fs@[i as int].1@)));
            if i == 0 {
                assert(render_fields(t) == render_field(gj[0]));
            } else {
                assert(t.drop_last() =~= gj.take(i as int));
                assert(t.last() == gj[i as int]);
                assert(render_fields(t) == render_fields(gj.take(i as int)) + seq![44u8]
                    + render_field(gj[i as int]));
            }
            assert(out@ =~= old(out)@ + seq![123u8] + render_fields(t));
        }
        i = i + 1;
    }
    out.push(125);
    proof {
        assert(gj.take(n as int) =~= gj);
        assert(out@ =~= old(out)@ + seq![123u8] + render_fields(gj) + seq![125u8]);
    }
}

/// The canonical wire bytes of an extended value. Total: every value is
/// encodable.
pub fn encode(v: &ExtendedValue) -> (r: Vec<u8>)
    ensures
        r@ == encode_spec(v@),
{
    let mut out: Vec<u8> = Vec::new();
    encode_value(v, &mut out);
    out
}

} // verus!
