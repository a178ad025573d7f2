//! Standard base64 text of byte strings, padded: spec representation,
//! executable emitter and parser, and the round-trip lemma that the
//! codec's binary wrapper rests on. The parser accepts only canonical
//! padding.

use vstd::prelude::*;

use crate::numbers::all_low_bytes;
use crate::text::all_plain_bytes;
use crate::text::plain_byte;

verus! {

broadcast use vstd::std_specs::vec::group_vec_axioms;

/// The alphabet byte of a sextet `n < 64`.
pub open spec fn b64_char(n: nat) -> u8 {
    if n < 26 {
        (65 + n) as u8
    } else if n < 52 {
        (71 + n) as u8
    } else if n < 62 {
        (n - 4) as u8
    } else if n == 62 {
        43u8
    } else {
        47u8
    }
}

pub open spec fn is_b64_byte(d: u8) -> bool {
    (65 <= d <= 90) || (97 <= d <= 122) || (48 <= d <= 57) || d == 43 || d == 47
}

/// The sextet a base64 alphabet byte denotes.
pub open spec fn b64_val(d: u8) -> nat {
    if 65 <= d <= 90 {
        (d - 65) as nat
    } else if 97 <= d <= 122 {
        (d - 71) as nat
    } else if 48 <= d <= 57 {
        (d + 4) as nat
    } else if d == 43 {
        62
    } else {
        63
    }
}

/// The base64 text of a byte string, grouped in threes from the front,
/// '=' padded.
pub open spec fn b64_bytes(b: Seq<u8>) -> Seq<u8>
    decreases b.len(),
{
    if b.len() == 0 {
        Seq::empty()
    } else if b.len() == 1 {
        let x = b[0];
        seq![b64_char((x / 4) as nat), b64_char(((x % 4) * 16) as nat), 61u8, 61u8]
    } else if b.len() == 2 {
        let x = b[0];
        let y = b[1];
        seq![
            b64_char((x / 4) as nat),
            b64_char(((x % 4) * 16 + y / 16) as nat),
            b64_char(((y % 16) * 4) as nat),
            61u8,
        ]
    } else {
        let x = b[0];
        let y = b[1];
        let z = b[2];
        seq![
            b64_char((x / 4) as nat),
            b64_char(((x % 4) * 16 + y / 16) as nat),
            b64_char(((y % 16) * 4 + z / 64) as nat),
            b64_char((z % 64) as nat),
        ] + b64_bytes(b.skip(3))
    }
}

/// The bytes a base64 text denotes: full quads from the front, one
/// possibly padded final quad, canonical padding only. Anything else
/// denotes nothing.
pub open spec fn parse_b64_bytes(s: Seq<u8>) -> Option<Seq<u8>>
    decreases s.len(),
{
    if s.len() == 0 {
        Option::Some(Seq::empty())
    } else if s.len() < 4 {
        Option::None
    } else {
        let q0 = s[0];
        let q1 = s[1];
        let q2 = s[2];
        let q3 = s[3];
        if !is_b64_byte(q0) || !is_b64_byte(q1) {
            Option::None
        } else if q2 == 61 && q3 == 61 {
            if s.len() == 4 && b64_val(q1) % 16 == 0 {
                Option::Some(seq![(b64_val(q0) * 4 + b64_val(q1) / 16) as u8])
            } else {
                Option::None
            }
        } else if q3 == 61 {
            if s.len() == 4 && is_b64_byte(q2) && b64_val(q2) % 4 == 0 {
                Option::Some(
                    seq![
                        (b64_val(q0) * 4 + b64_val(q1) / 16) as u8,
                        ((b64_val(q1) % 16) * 16 + b64_val(q2) / 4) as u8,
                    ],
                )
            } else {
                Option::None
            }
        } else if !is_b64_byte(q2) || !is_b64_byte(q3) {
            Option::None
        } else {
            match parse_b64_bytes(s.skip(4)) {
                Option::Some(rest) => Option::Some(
                    seq![
                        (b64_val(q0) * 4 + b64_val(q1) / 16) as u8,
                        ((b64_val(q1) % 16) * 16 + b64_val(q2) / 4) as u8,
                        ((b64_val(q2) % 4) * 64 + b64_val(q3)) as u8,
                    ] + rest,
                ),
                Option::None => Option::None,
            }
        }
    }
}

/// Alphabet bytes are plain low bytes, and reading one back gives the
/// sextet it encodes.
proof fn lemma_b64_char(n: nat)
    requires
        n < 64,
    ensures
        is_b64_byte(b64_char(n)),
        b64_val(b64_char(n)) == n,
        plain_byte(b64_char(n)),
        b64_char(n) < 128,
        b64_char(n) != 61,
{
}

/// The base64 text of a byte string holds only plain low bytes.
pub proof fn lemma_b64_bytes_plain(b: Seq<u8>)
    ensures
        all_plain_bytes(b64_bytes(b)),
        all_low_bytes(b64_bytes(b)),
    decreases b.len(),
{
    if b.len() == 0 {
    } else if b.len() == 1 {
        let s = b64_bytes(b);
        assert(forall|i: int| 0 <= i < s.len() ==> plain_byte(#[trigger] s[i]) && s[i] < 128)
            by {
            lemma_b64_char((b[0] / 4) as nat);
            lemma_b64_char(((b[0] % 4) * 16) as nat);
        }
    } else if b.len() == 2 {
        let s = b64_bytes(b);
        assert(forall|i: int| 0 <= i < s.len() ==> plain_byte(#[trigger] s[i]) && s[i] < 128)
            by {
            lemma_b64_char((b[0] / 4) as nat);
            lemma_b64_char(((b[0] % 4) * 16 + b[1] / 16) as nat);
            lemma_b64_char(((b[1] % 16) * 4) as nat);
        }
    } else {
        lemma_b64_bytes_plain(b.skip(3));
        let s = b64_bytes(b);
        let rest = b64_bytes(b.skip(3));
        assert(forall|i: int| 0 <= i < s.len() ==> plain_byte(#[trigger] s[i]) && s[i] < 128)
            by {
            lemma_b64_char((b[0] / 4) as nat);
            lemma_b64_char(((b[0] % 4) * 16 + b[1] / 16) as nat);
            lemma_b64_char(((b[1] % 16) * 4 + b[2] / 64) as nat);
            lemma_b64_char((b[2] % 64) as nat);
            assert(forall|i: int| 4 <= i < s.len() ==> #[trigger] s[i] == rest[i - 4]);
        }
    }
}

/// Parsing the base64 text of a byte string gives the bytes back.
pub proof fn lemma_parse_b64(b: Seq<u8>)
    ensures
        parse_b64_bytes(b64_bytes(b)) == Option::Some(b),
    decreases b.len(),
{
    if b.len() == 0 {
        assert(parse_b64_bytes(b64_bytes(b)) == Option::Some(Seq::<u8>::empty()));
        assert(Seq::<u8>::empty() =~= b);
    } else if b.len() == 1 {
        let x = b[0];
        let v0 = (x / 4) as nat;
        let v1 = ((x % 4) * 16) as nat;
        lemma_b64_char(v0);
        lemma_b64_char(v1);
        let s = b64_bytes(b);
        assert(s.len() == 4);
        assert(b64_val(s[0]) == v0 && b64_val(s[1]) == v1);
        assert(v1 % 16 == 0) by (nonlinear_arith)
            requires
                v1 == ((x % 4) * 16) as nat,
        ;
        assert(v0 * 4 + v1 / 16 == x) by (nonlinear_arith)
            requires
                v0 == (x / 4) as nat,
                v1 == ((x % 4) * 16) as nat,
        ;
        assert(parse_b64_bytes(s) == Option::Some(seq![x]));
        assert(seq![x] =~= b);
    } else if b.len() == 2 {
        let x = b[0];
        let y = b[1];
        let v0 = (x / 4) as nat;
        let v1 = ((x % 4) * 16 + y / 16) as nat;
        let v2 = ((y % 16) * 4) as nat;
        lemma_b64_char(v0);
        lemma_b64_char(v1);
        lemma_b64_char(v2);
        let s = b64_bytes(b);
        assert(s.len() == 4);
        assert(s[3] == 61 && s[2] != 61);
        assert(v2 % 4 == 0) by (nonlinear_arith)
            requires
                v2 == ((y % 16) * 4) as nat,
        ;
        assert(v0 * 4 + v1 / 16 == x && (v1 % 16) * 16 + v2 / 4 == y) by (nonlinear_arith)
            requires
                v0 == (x / 4) as nat,
                v1 == ((x % 4) * 16 + y / 16) as nat,
                v2 == ((y % 16) * 4) as nat,
        ;
        assert(parse_b64_bytes(s) == Option::Some(seq![x, y]));
        assert(seq![x, y] =~= b);
    } else {
        let x = b[0];
        let y = b[1];
        let z = b[2];
        let v0 = (x / 4) as nat;
        let v1 = ((x % 4) * 16 + y / 16) as nat;
        let v2 = ((y % 16) * 4 + z / 64) as nat;
        let v3 = (z % 64) as nat;
        lemma_b64_char(v0);
        lemma_b64_char(v1);
        lemma_b64_char(v2);
        lemma_b64_char(v3);
        lemma_parse_b64(b.skip(3));
        let s = b64_bytes(b);
        let quad = seq![b64_char(v0), b64_char(v1), b64_char(v2), b64_char(v3)];
        assert(s == quad + b64_bytes(b.skip(3)));
        assert(s.len() >= 4);
        assert(s[0] == b64_char(v0) && s[1] == b64_char(v1) && s[2] == b64_char(v2) && s[3]
            == b64_char(v3));
        assert(s.skip(4) =~= b64_bytes(b.skip(3)));
        assert(v0 * 4 + v1 / 16 == x && (v1 % 16) * 16 + v2 / 4 == y && (v2 % 4) * 64 + v3
            == z) by (nonlinear_arith)
            requires
                v0 == (x / 4) as nat,
                v1 == ((x % 4) * 16 + y / 16) as nat,
                v2 == ((y % 16) * 4 + z / 64) as nat,
                v3 == (z % 64) as nat,
        ;
        assert(parse_b64_bytes(s) == Option::Some(seq![x, y, z] + b.skip(3)));
        assert(seq![x, y, z] + b.skip(3) =~= b);
    }
}

/// Appends the base64 text of `b` to `out`.
#[verifier::loop_isolation(false)]
pub fn push_b64_bytes(b: &Vec<u8>, out: &mut Vec<u8>)
    ensures
        final(out)@ == old(out)@ + b64_bytes(b@),
{
    let n = b.len();
    let mut i: usize = 0;
    proof {
        assert(b@.skip(0) =~= b@);
    }
    while n - i >= 3
        invariant
            0 <= i <= n,
            i % 3 == 0,
            out@ + b64_bytes(b@.skip(i as int)) == old(out)@ + b64_bytes(b@),
        decreases n - i,
    {
        let x = b[i];
        let y = b[i + 1];
        let z = b[i + 2];
        let ghost pre = out@;
        out.push(b64_digit(x / 4));
        out.push(b64_digit((x % 4) * 16 + y / 16));
        out.push(b64_digit((y % 16) * 4 + z / 64));
        out.push(b64_digit(z % 64));
        proof {
            let rem = b@.skip(i as int);
            assert(rem.len() >= 3);
            assert(rem[0] == b@[i as int] && rem[1] == b@[i + 1] && rem[2] == b@[i + 2]);
            assert(rem.skip(3) =~= b@.skip(i + 3));
            assert(out@ =~= pre + seq![
                b64_char((x / 4) as nat),
                b64_char(((x % 4) * 16 + y / 16) as nat),
                b64_char(((y % 16) * 4 + z / 64) as nat),
                b64_char((z % 64) as nat),
            ]);
            assert(out@ + b64_bytes(b@.skip(i + 3)) =~= pre + b64_bytes(b@.skip(i as int)));
        }
        i = i + 3;
    }
    let ghost pre = out@;
    if n - i == 1 {
        let x = b[i];
        out.push(b64_digit(x / 4));
        out.push(b64_digit((x % 4) * 16));
        out.push(61);
        out.push(61);
        proof {
            let rem = b@.skip(i as int);
            assert(rem.len() == 1 && rem[0] == b@[i as int]);
            assert(out@ =~= pre + b64_bytes(rem));
        }
    } else if n - i == 2 {
        let x = b[i];
        let y = b[i + 1];
        out.push(b64_digit(x / 4));
        out.push(b64_digit((x % 4) * 16 + y / 16));
        out.push(b64_digit((y % 16) * 4));
        out.push(61);
        proof {
            let rem = b@.skip(i as int);
            assert(rem.len() == 2 && rem[0] == b@[i as int] && rem[1] == b@[i + 1]);
            assert(out@ =~= pre + b64_bytes(rem));
        }
    } else {
        proof {
            let rem = b@.skip(i as int);
            assert(rem.len() == 0);
            assert(b64_bytes(rem) =~= Seq::<u8>::empty());
            assert(out@ =~= pre + b64_bytes(rem));
        }
    }
}

/// The alphabet byte of a sextet.
fn b64_digit(n: u8) -> (r: u8)
    requires
        n < 64,
    ensures
        r == b64_char(n as nat),
{
    if n < 26 {
        65 + n
    } else if n < 52 {
        71 + n
    } else if n < 62 {
        n - 4
    } else if n == 62 {
        43
    } else {
        47
    }
}

/// The sextet of an alphabet byte, if it is one.
fn b64_value(d: u8) -> (r: Option<u8>)
    ensures
        match r {
            Option::Some(v) => is_b64_byte(d) && v == b64_val(d),
            Option::None => !is_b64_byte(d),
        },
{
    if 65 <= d && d <= 90 {
        Some(d - 65)
    } else if 97 <= d && d <= 122 {
        Some(d - 71)
    } else if 48 <= d && d <= 57 {
        Some(d + 4)
    } else if d == 43 {
        Some(62)
    } else if d == 47 {
        Some(63)
    } else {
        None
    }
}

/// Parses base64 text into its bytes, exactly as `parse_b64_bytes`
/// describes over the string's UTF-8 bytes.
#[verifier::rlimit(100)]
#[verifier::spinoff_prover]
#[verifier::loop_isolation(false)]
pub fn parse_b64(s: &str) -> (r: Option<Vec<u8>>)
    ensures
        match r {
            Option::Some(v) => parse_b64_bytes(vstd::utf8::encode_utf8(s@)) == Option::Some(
                v@,
            ),
            Option::None => parse_b64_bytes(vstd::utf8::encode_utf8(s@)) is None,
        },
{
    let bytes = s.as_bytes();
    let ghost whole = vstd::utf8::encode_utf8(s@);
    let n = bytes.len();
    if n % 4 != 0 {
        proof {
            lemma_b64_len_multiple(whole);
        }
        return None;
    }
    let mut acc: Vec<u8> = Vec::new();
    let mut i: usize = 0;
    proof {
        assert(whole.skip(0) =~= whole);
        match parse_b64_bytes(whole) {
            Option::Some(rest) => {
                assert(acc@ + rest =~= rest);
            },
            Option::None => {},
        }
    }
    while n - i > 4
        invariant
            0 <= i <= n,
            i % 4 == 0,
            parse_b64_bytes(whole) == (match parse_b64_bytes(whole.skip(i as int)) {
                Option::Some(rest) => Option::Some(acc@ + rest),
                Option::None => Option::None::<Seq<u8>>,
            }),
        decreases n - i,
    {
        let ghost rem = whole.skip(i as int);
        let ghost acc_old = acc@;
        proof {
            assert(rem.len() == n - i);
            assert(rem[0] == whole[i as int]);
            assert(rem[1] == whole[i + 1]);
            assert(rem[2] == whole[i + 2]);
            assert(rem[3] == whole[i + 3]);
            assert(rem.skip(4) =~= whole.skip(i + 4));
        }
        let q0 = bytes[i];
        let q1 = bytes[i + 1];
        let q2 = bytes[i + 2];
        let q3 = bytes[i + 3];
        if q2 == 61 || q3 == 61 {
            return None;
        }
        let v0 = match b64_value(q0) {
            Some(v) => v,
            None => {
                return None;
            },
        };
        let v1 = match b64_value(q1) {
            Some(v) => v,
            None => {
                return None;
            },
        };
        let v2 = match b64_value(q2) {
            Some(v) => v,
            None => {
                return None;
            },
        };
        let v3 = match b64_value(q3) {
            Some(v) => v,
            None => {
                return None;
            },
        };
        acc.push(v0 * 4 + v1 / 16);
        acc.push((v1 % 16) * 16 + v2 / 4);
        acc.push((v2 % 4) * 64 + v3);
        proof {
            match parse_b64_bytes(whole.skip(i + 4)) {
                Option::Some(rest) => {
                    assert(acc@ =~= acc_old.push((v0 * 4 + v1 / 16) as u8).push(
                        ((v1 % 16) * 16 + v2 / 4) as u8,
                    ).push(((v2 % 4) * 64 + v3) as u8));
                    assert(acc_old + (seq![
                        (b64_val(rem[0]) * 4 + b64_val(rem[1]) / 16) as u8,
                        ((b64_val(rem[1]) % 16) * 16 + b64_val(rem[2]) / 4) as u8,
                        ((b64_val(rem[2]) % 4) * 64 + b64_val(rem[3])) as u8,
                    ] + rest) =~= acc@ + rest);
                },
                Option::None => {},
            }
        }
        i = i + 4;
    }
    let ghost rem = whole.skip(i as int);
    if i == n {
        proof {
            assert(rem.len() == 0);
            assert(parse_b64_bytes(rem) == Option::Some(Seq::<u8>::empty()));
            assert(acc@ + Seq::<u8>::empty() =~= acc@);
        }
        return Some(acc);
    }
    proof {
        assert(rem.len() == 4);
        assert(rem[0] == whole[i as int] && rem[1] == whole[i + 1] && rem[2] == whole[i + 2]
            && rem[3] == whole[i + 3]);
    }
    let q0 = bytes[i];
    let q1 = bytes[i + 1];
    let q2 = bytes[i + 2];
    let q3 = bytes[i + 3];
    let v0 = match b64_value(q0) {
        Some(v) => v,
        None => {
            return None;
        },
    };
    let v1 = match b64_value(q1) {
        Some(v) => v,
        None => {
            return None;
        },
    };
    if q2 == 61 && q3 == 61 {
        if v1 % 16 != 0 {
            return None;
        }
        acc.push(v0 * 4 + v1 / 16);
        proof {
            assert(parse_b64_bytes(rem) == Option::Some(seq![
                (b64_val(rem[0]) * 4 + b64_val(rem[1]) / 16) as u8,
            ]));
            assert(acc@ =~= acc@.drop_last() + seq![(b64_val(rem[0]) * 4 + b64_val(rem[1])
                / 16) as u8]);
        }
        return Some(acc);
    }
    if q3 == 61 {
        let v2 = match b64_value(q2) {
            Some(v) => v,
            None => {
                return None;
            },
        };
        if v2 % 4 != 0 {
            return None;
        }
        acc.push(v0 * 4 + v1 / 16);
        acc.push((v1 % 16) * 16 + v2 / 4);
        proof {
            assert(parse_b64_bytes(rem) == Option::Some(seq![
                (b64_val(rem[0]) * 4 + b64_val(rem[1]) / 16) as u8,
                ((b64_val(rem[1]) % 16) * 16 + b64_val(rem[2]) / 4) as u8,
            ]));
            assert(acc@ =~= acc@.drop_last().drop_last() + seq![
                (b64_val(rem[0]) * 4 + b64_val(rem[1]) / 16) as u8,
                ((b64_val(rem[1]) % 16) * 16 + b64_val(rem[2]) / 4) as u8,
            ]);
        }
        return Some(acc);
    }
    let v2 = match b64_value(q2) {
        Some(v) => v,
        None => {
            return None;
        },
    };
    let v3 = match b64_value(q3) {
        Some(v) => v,
        None => {
            return None;
        },
    };
    acc.push(v0 * 4 + v1 / 16);
    acc.push((v1 % 16) * 16 + v2 / 4);
    acc.push((v2 % 4) * 64 + v3);
    proof {
        assert(rem.skip(4) =~= Seq::<u8>::empty());
        assert(parse_b64_bytes(rem.skip(4)) == Option::Some(Seq::<u8>::empty()));
        assert(parse_b64_bytes(rem) == Option::Some(seq![
            (b64_val(rem[0]) * 4 + b64_val(rem[1]) / 16) as u8,
            ((b64_val(rem[1]) % 16) * 16 + b64_val(rem[2]) / 4) as u8,
            ((b64_val(rem[2]) % 4) * 64 + b64_val(rem[3])) as u8,
        ] + Seq::<u8>::empty()));
        assert(acc@ =~= acc@.drop_last().drop_last().drop_last() + (seq![
            (b64_val(rem[0]) * 4 + b64_val(rem[1]) / 16) as u8,
            ((b64_val(rem[1]) % 16) * 16 + b64_val(rem[2]) / 4) as u8,
            ((b64_val(rem[2]) % 4) * 64 + b64_val(rem[3])) as u8,
        ] + Seq::<u8>::empty()));
    }
    Some(acc)
}

/// Base64 text that parses comes in whole quads.
proof fn lemma_b64_len_multiple(s: Seq<u8>)
    ensures
        parse_b64_bytes(s) is Some ==> s.len() % 4 == 0,
    decreases s.len(),
{
    if s.len() == 0 {
    } else if s.len() < 4 {
    } else {
        lemma_b64_len_multiple(s.skip(4));
        if parse_b64_bytes(s) is Some {
            if s[2] == 61 && s[3] == 61 {
            } else if s[3] == 61 {
            } else {
                assert(s.skip(4).len() == s.len() - 4);
            }
        }
    }
}

} // verus!
