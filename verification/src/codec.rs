//! The canonical Extended JSON codec: the mapping between extended
//! values and generic JSON trees, in both directions, and the law that
//! decoding inverts encoding.
//!
//! Every non-JSON-native type is carried as a single-key "type wrapper"
//! object. `Int64` is wrapped while `Int32` stays a bare integer: the
//! asymmetry is part of the wire format and deliberate.

use vstd::prelude::*;

use crate::base64::b64_bytes;
use crate::base64::parse_b64_bytes;
use crate::hex::hex_bytes;
use crate::hex::parse_hex_bytes;
use crate::json::SpecJson;
use crate::numbers::ascii_chars;
use crate::numbers::int_bytes;
use crate::numbers::parse_i64_chars;
use crate::value::SpecValue;

verus! {

broadcast use {vstd::std_specs::vec::group_vec_axioms, vstd::string::group_string_axioms};

pub open spec fn tag_long() -> Seq<char> {
    "$numberLong"@
}

pub open spec fn tag_double() -> Seq<char> {
    "$numberDouble"@
}

pub open spec fn tag_decimal() -> Seq<char> {
    "$numberDecimal"@
}

pub open spec fn tag_oid() -> Seq<char> {
    "$oid"@
}

pub open spec fn tag_date() -> Seq<char> {
    "$date"@
}

pub open spec fn tag_regex() -> Seq<char> {
    "$regularExpression"@
}

pub open spec fn tag_binary() -> Seq<char> {
    "$binary"@
}

pub open spec fn key_base64() -> Seq<char> {
    "base64"@
}

pub open spec fn key_subtype() -> Seq<char> {
    "subType"@
}

pub open spec fn key_pattern() -> Seq<char> {
    "pattern"@
}

pub open spec fn key_options() -> Seq<char> {
    "options"@
}

/// The keys that the decoder recognizes as type wrappers when they stand
/// alone in a single-key object.
pub open spec fn is_wrapper_tag(k: Seq<char>) -> bool {
    ||| k == tag_long()
    ||| k == tag_double()
    ||| k == tag_decimal()
    ||| k == tag_oid()
    ||| k == tag_date()
    ||| k == tag_regex()
    ||| k == tag_binary()
}

/// The six recognized tags are pairwise distinct: their lengths differ.
pub proof fn lemma_tags_distinct()
    ensures
        tag_long() != tag_double(),
        tag_long() != tag_decimal(),
        tag_long() != tag_oid(),
        tag_long() != tag_date(),
        tag_long() != tag_regex(),
        tag_double() != tag_decimal(),
        tag_double() != tag_oid(),
        tag_double() != tag_date(),
        tag_double() != tag_regex(),
        tag_decimal() != tag_oid(),
        tag_decimal() != tag_date(),
        tag_decimal() != tag_regex(),
        tag_oid() != tag_date(),
        tag_oid() != tag_regex(),
        tag_date() != tag_regex(),
        tag_binary() != tag_long(),
        tag_binary() != tag_double(),
        tag_binary() != tag_decimal(),
        tag_binary() != tag_oid(),
        tag_binary() != tag_date(),
        tag_binary() != tag_regex(),
{
    reveal_strlit("$binary");
    reveal_strlit("$numberLong");
    reveal_strlit("$numberDouble");
    reveal_strlit("$numberDecimal");
    reveal_strlit("$oid");
    reveal_strlit("$date");
    reveal_strlit("$regularExpression");
    assert(tag_long().len() == 11);
    assert(tag_double().len() == 13);
    assert(tag_decimal().len() == 14);
    assert(tag_oid().len() == 4);
    assert(tag_date().len() == 5);
    assert(tag_regex().len() == 18);
    assert(tag_binary().len() == 7);
}

/// The canonical encoding of an extended value as a generic JSON tree.
pub open spec fn enc(v: SpecValue) -> SpecJson
    decreases v,
{
    match v {
        SpecValue::Null => SpecJson::Null,
        SpecValue::Bool(b) => SpecJson::Bool(b),
        SpecValue::Int32(i) => SpecJson::Int(i as i64),
        SpecValue::Int64(i) => SpecJson::Object(
            seq![(tag_long(), SpecJson::Str(ascii_chars(int_bytes(i as int))))],
        ),
        SpecValue::Double(s) => SpecJson::Object(seq![(tag_double(), SpecJson::Str(s))]),
        SpecValue::Str(s) => SpecJson::Str(s),
        SpecValue::Binary(t, b) => SpecJson::Object(
            seq![
                (
                    tag_binary(),
                    SpecJson::Object(
                        seq![
                            (key_base64(), SpecJson::Str(ascii_chars(b64_bytes(b)))),
                            (
                                key_subtype(),
                                SpecJson::Str(ascii_chars(hex_bytes(seq![t]))),
                            ),
                        ],
                    ),
                ),
            ],
        ),
        SpecValue::ObjectId(b) => SpecJson::Object(
            seq![(tag_oid(), SpecJson::Str(ascii_chars(hex_bytes(b))))],
        ),
        SpecValue::DateTime(ms) => SpecJson::Object(
            seq![
                (
                    tag_date(),
                    SpecJson::Object(
                        seq![(tag_long(), SpecJson::Str(ascii_chars(int_bytes(ms as int))))],
                    ),
                ),
            ],
        ),
        SpecValue::Regex(p, o) => SpecJson::Object(
            seq![
                (
                    tag_regex(),
                    SpecJson::Object(
                        seq![
                            (key_pattern(), SpecJson::Str(p)),
                            (key_options(), SpecJson::Str(o)),
                        ],
                    ),
                ),
            ],
        ),
        SpecValue::Decimal128(s) => SpecJson::Object(
            seq![(tag_decimal(), SpecJson::Str(s))],
        ),
        SpecValue::Array(xs) => SpecJson::Array(
            Seq::new(
                xs.len(),
                |i: int|
                    if 0 <= i < xs.len() {
                        enc(xs[i])
                    } else {
                        SpecJson::Null
                    },
            ),
        ),
        SpecValue::Document(fs) => SpecJson::Object(
            Seq::new(
                fs.len(),
                |i: int|
                    if 0 <= i < fs.len() {
                        (fs[i].0, enc(fs[i].1))
                    } else {
                        (Seq::<char>::empty(), SpecJson::Null)
                    },
            ),
        ),
    }
}

/// Whether the decoder accepts this generic JSON tree: true unless a
/// recognized wrapper key carries a payload of the wrong shape.
pub open spec fn dec_ok(j: SpecJson) -> bool
    decreases j,
{
    match j {
        SpecJson::Null => true,
        SpecJson::Bool(_) => true,
        SpecJson::Int(_) => true,
        SpecJson::Float(_) => true,
        SpecJson::Str(_) => true,
        SpecJson::Array(xs) => forall|i: int| 0 <= i < xs.len() ==> dec_ok(#[trigger] xs[i]),
        SpecJson::Object(fs) => {
            if fs.len() == 1 && fs[0].0 == tag_long() {
                &&& fs[0].1 is Str
                &&& parse_i64_chars(fs[0].1->Str_0) is Some
            } else if fs.len() == 1 && fs[0].0 == tag_double() {
                fs[0].1 is Str
            } else if fs.len() == 1 && fs[0].0 == tag_decimal() {
                fs[0].1 is Str
            } else if fs.len() == 1 && fs[0].0 == tag_oid() {
                &&& fs[0].1 is Str
                &&& {
                    let h = parse_hex_bytes(vstd::utf8::encode_utf8(fs[0].1->Str_0));
                    h is Some && h->0.len() == 12
                }
            } else if fs.len() == 1 && fs[0].0 == tag_date() {
                &&& fs[0].1 is Object
                &&& {
                    let g = fs[0].1->Object_0;
                    &&& g.len() == 1
                    &&& g[0].0 == tag_long()
                    &&& g[0].1 is Str
                    &&& parse_i64_chars(g[0].1->Str_0) is Some
                }
            } else if fs.len() == 1 && fs[0].0 == tag_regex() {
                &&& fs[0].1 is Object
                &&& {
                    let g = fs[0].1->Object_0;
                    &&& g.len() == 2
                    &&& g[0].0 == key_pattern()
                    &&& g[0].1 is Str
                    &&& g[1].0 == key_options()
                    &&& g[1].1 is Str
                }
            } else if fs.len() == 1 && fs[0].0 == tag_binary() {
                &&& fs[0].1 is Object
                &&& {
                    let g = fs[0].1->Object_0;
                    &&& g.len() == 2
                    &&& g[0].0 == key_base64()
                    &&& g[0].1 is Str
                    &&& g[1].0 == key_subtype()
                    &&& g[1].1 is Str
                    &&& parse_b64_bytes(vstd::utf8::encode_utf8(g[0].1->Str_0)) is Some
                    &&& {
                        let st = parse_hex_bytes(vstd::utf8::encode_utf8(g[1].1->Str_0));
                        st is Some && st->0.len() == 1
                    }
                }
            } else {
                forall|i: int| 0 <= i < fs.len() ==> dec_ok(#[trigger] fs[i].1)
            }
        },
    }
}

/// What the decoder makes of a generic JSON tree. Meaningful only where
/// `dec_ok` holds; rejected nodes map to `Null`.
pub open spec fn dec_val(j: SpecJson) -> SpecValue
    decreases j,
{
    match j {
        SpecJson::Null => SpecValue::Null,
        SpecJson::Bool(b) => SpecValue::Bool(b),
        SpecJson::Int(i) => {
            if -0x80000000 <= i <= 0x7fffffff {
                SpecValue::Int32(i as i32)
            } else {
                SpecValue::Int64(i)
            }
        },
        SpecJson::Float(s) => SpecValue::Double(s),
        SpecJson::Str(s) => SpecValue::Str(s),
        SpecJson::Array(xs) => SpecValue::Array(
            Seq::new(
                xs.len(),
                |i: int|
                    if 0 <= i < xs.len() {
                        dec_val(xs[i])
                    } else {
                        SpecValue::Null
                    },
            ),
        ),
        SpecJson::Object(fs) => {
            if fs.len() == 1 && fs[0].0 == tag_long() {
                if fs[0].1 is Str && parse_i64_chars(fs[0].1->Str_0) is Some {
                    SpecValue::Int64(parse_i64_chars(fs[0].1->Str_0)->0)
                } else {
                    SpecValue::Null
                }
            } else if fs.len() == 1 && fs[0].0 == tag_double() {
                if fs[0].1 is Str {
                    SpecValue::Double(fs[0].1->Str_0)
                } else {
                    SpecValue::Null
                }
            } else if fs.len() == 1 && fs[0].0 == tag_decimal() {
                if fs[0].1 is Str {
                    SpecValue::Decimal128(fs[0].1->Str_0)
                } else {
                    SpecValue::Null
                }
            } else if fs.len() == 1 && fs[0].0 == tag_oid() {
                if fs[0].1 is Str && parse_hex_bytes(
                    vstd::utf8::encode_utf8(fs[0].1->Str_0),
                ) is Some {
                    SpecValue::ObjectId(
                        parse_hex_bytes(vstd::utf8::encode_utf8(fs[0].1->Str_0))->0,
                    )
                } else {
                    SpecValue::Null
                }
            } else if fs.len() == 1 && fs[0].0 == tag_date() {
                if fs[0].1 is Object {
                    let g = fs[0].1->Object_0;
                    if g.len() == 1 && g[0].0 == tag_long() && g[0].1 is Str
                        && parse_i64_chars(g[0].1->Str_0) is Some {
                        SpecValue::DateTime(parse_i64_chars(g[0].1->Str_0)->0)
                    } else {
                        SpecValue::Null
                    }
                } else {
                    SpecValue::Null
                }
            } else if fs.len() == 1 && fs[0].0 == tag_regex() {
                if fs[0].1 is Object {
                    let g = fs[0].1->Object_0;
                    if g.len() == 2 && g[0].0 == key_pattern() && g[0].1 is Str && g[1].0
                        == key_options() && g[1].1 is Str {
                        SpecValue::Regex(g[0].1->Str_0, g[1].1->Str_0)
                    } else {
                        SpecValue::Null
                    }
                } else {
                    SpecValue::Null
                }
            } else if fs.len() == 1 && fs[0].0 == tag_binary() {
                if fs[0].1 is Object {
                    let g = fs[0].1->Object_0;
                    if g.len() == 2 && g[0].0 == key_base64() && g[0].1 is Str && g[1].0
                        == key_subtype() && g[1].1 is Str && parse_b64_bytes(
                        vstd::utf8::encode_utf8(g[0].1->Str_0),
                    ) is Some && parse_hex_bytes(
                        vstd::utf8::encode_utf8(g[1].1->Str_0),
                    ) is Some && parse_hex_bytes(
                        vstd::utf8::encode_utf8(g[1].1->Str_0),
                    )->0.len() == 1 {
                        SpecValue::Binary(
                            parse_hex_bytes(vstd::utf8::encode_utf8(g[1].1->Str_0))->0[0],
                            parse_b64_bytes(vstd::utf8::encode_utf8(g[0].1->Str_0))->0,
                        )
                    } else {
                        SpecValue::Null
                    }
                } else {
                    SpecValue::Null
                }
            } else {
                SpecValue::Document(
                    Seq::new(
                        fs.len(),
                        |i: int|
                            if 0 <= i < fs.len() {
                                (fs[i].0, dec_val(fs[i].1))
                            } else {
                                (Seq::<char>::empty(), SpecValue::Null)
                            },
                    ),
                )
            }
        },
    }
}

/// An extended value that encoding maps into the image of the decoder:
/// ids hold twelve bytes, and no single-field document borrows a
/// recognized wrapper key. A wrapper-shaped document cannot exist on the
/// wire: its encoding would read back as the wrapped type.
pub open spec fn rt_safe(v: SpecValue) -> bool
    decreases v,
{
    match v {
        SpecValue::ObjectId(b) => b.len() == 12,
        SpecValue::Array(xs) => forall|i: int| 0 <= i < xs.len() ==> rt_safe(#[trigger] xs[i]),
        SpecValue::Document(fs) => {
            &&& (fs.len() == 1 ==> !is_wrapper_tag(fs[0].0))
            &&& forall|i: int| 0 <= i < fs.len() ==> rt_safe(#[trigger] fs[i].1)
        },
        _ => true,
    }
}

/// Decoding inverts encoding: every round-trip-safe extended value comes
/// back unchanged, key order, element order and numeric sub-type
/// included.
pub proof fn lemma_round_trip(v: SpecValue)
    requires
        rt_safe(v),
    ensures
        dec_ok(enc(v)),
        dec_val(enc(v)) == v,
    decreases v,
{
    lemma_tags_distinct();
    match v {
        SpecValue::Null => {},
        SpecValue::Bool(_) => {},
        SpecValue::Int32(_) => {},
        SpecValue::Int64(i) => {
            crate::numbers::lemma_int_bytes_low(i as int);
            crate::numbers::lemma_ascii_chars_utf8(int_bytes(i as int));
            crate::numbers::lemma_parse_int_bytes(i as int);
        },
        SpecValue::Double(_) => {},
        SpecValue::Str(_) => {},
        SpecValue::Binary(t, b) => {
            crate::base64::lemma_b64_bytes_plain(b);
            crate::numbers::lemma_ascii_chars_utf8(b64_bytes(b));
            crate::base64::lemma_parse_b64(b);
            crate::hex::lemma_hex_bytes_props(seq![t]);
            crate::numbers::lemma_ascii_chars_utf8(hex_bytes(seq![t]));
        },
        SpecValue::ObjectId(b) => {
            crate::hex::lemma_hex_bytes_props(b);
            crate::numbers::lemma_ascii_chars_utf8(hex_bytes(b));
        },
        SpecValue::DateTime(ms) => {
            crate::numbers::lemma_int_bytes_low(ms as int);
            crate::numbers::lemma_ascii_chars_utf8(int_bytes(ms as int));
            crate::numbers::lemma_parse_int_bytes(ms as int);
        },
        SpecValue::Regex(_, _) => {},
        SpecValue::Decimal128(_) => {},
        SpecValue::Array(xs) => {
            let ej = enc(v)->Array_0;
            assert forall|i: int| 0 <= i < ej.len() implies dec_ok(#[trigger] ej[i]) by {
                assert(ej[i] == enc(xs[i]));
                assert(rt_safe(xs[i]));
                lemma_round_trip(xs[i]);
            }
            assert(dec_ok(enc(v)));
            let back = dec_val(enc(v))->Array_0;
            assert forall|i: int| 0 <= i < xs.len() implies #[trigger] back[i] == xs[i] by {
                lemma_round_trip(xs[i]);
            }
            assert(back =~= xs);
            assert(dec_val(enc(v)) =~= v);
        },
        SpecValue::Document(fs) => {
            let gs = enc(v)->Object_0;
            assert(gs.len() == fs.len());
            if fs.len() == 1 {
                assert(gs[0].0 == fs[0].0);
                assert(!is_wrapper_tag(fs[0].0));
            }
            assert forall|i: int| 0 <= i < gs.len() implies dec_ok(#[trigger] gs[i].1) by {
                assert(gs[i].1 == enc(fs[i].1));
                assert(rt_safe(fs[i].1));
                lemma_round_trip(fs[i].1);
            }
            assert(dec_ok(enc(v)));
            let back = dec_val(enc(v))->Document_0;
            assert forall|i: int| 0 <= i < fs.len() implies #[trigger] back[i] == fs[i] by {
                assert(gs[i].1 == enc(fs[i].1));
                lemma_round_trip(fs[i].1);
                assert(back[i].0 == fs[i].0 && back[i].1 == fs[i].1);
            }
            assert(back =~= fs);
            assert(dec_val(enc(v)) =~= v);
        },
    }
}

} // verus!
