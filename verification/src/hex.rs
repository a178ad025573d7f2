//! Lowercase hexadecimal text of byte strings: spec representation,
//! executable emitter and parser, and the round-trip lemma that the
//! codec's id wrapper rests on. The parser also accepts uppercase
//! digits; the emitter writes lowercase.

use vstd::prelude::*;

use crate::numbers::all_low_bytes;

verus! {

broadcast use {vstd::std_specs::vec::group_vec_axioms, vstd::string::group_string_axioms};

/// The lowercase hex digit byte for `n < 16`.
pub open spec fn hex_digit(n: nat) -> u8 {
    if n % 16 < 10 {
        (48 + n % 16) as u8
    } else {
        (87 + n % 16) as u8
    }
}

/// The lowercase hex spelling of a byte string, two digits per byte.
pub open spec fn hex_bytes(bs: Seq<u8>) -> Seq<u8>
    decreases bs.len(),
{
    if bs.len() == 0 {
        Seq::empty()
    } else {
        hex_bytes(bs.drop_last()) + seq![
            hex_digit((bs.last() / 16) as nat),
            hex_digit((bs.last() % 16) as nat),
        ]
    }
}

pub open spec fn is_hex_digit_byte(d: u8) -> bool {
    (48 <= d <= 57) || (97 <= d <= 102) || (65 <= d <= 70)
}

pub open spec fn hex_digit_val(d: u8) -> nat {
    if 48 <= d <= 57 {
        (d - 48) as nat
    } else if 97 <= d <= 102 {
        (d - 87) as nat
    } else {
        (d - 55) as nat
    }
}

pub open spec fn all_hex_digit_bytes(s: Seq<u8>) -> bool {
    forall|i: int| 0 <= i < s.len() ==> is_hex_digit_byte(#[trigger] s[i])
}

/// The bytes spelled by an even-length string of hex digits.
pub open spec fn hex_decode(s: Seq<u8>) -> Seq<u8>
    decreases s.len(),
{
    if s.len() < 2 {
        Seq::empty()
    } else {
        hex_decode(s.drop_last().drop_last()) + seq![
            (hex_digit_val(s[s.len() - 2]) * 16 + hex_digit_val(s.last())) as u8,
        ]
    }
}

/// What a hex string denotes: its bytes when it has even length and only
/// hex digits, nothing otherwise.
pub open spec fn parse_hex_bytes(s: Seq<u8>) -> Option<Seq<u8>> {
    if s.len() % 2 == 0 && all_hex_digit_bytes(s) {
        Some(hex_decode(s))
    } else {
        None
    }
}

/// The hex spelling of a byte string is twice as long, all lowercase hex
/// digits and low bytes, and decodes to the byte string itself.
pub proof fn lemma_hex_bytes_props(bs: Seq<u8>)
    ensures
        hex_bytes(bs).len() == 2 * bs.len(),
        all_hex_digit_bytes(hex_bytes(bs)),
        all_low_bytes(hex_bytes(bs)),
        hex_decode(hex_bytes(bs)) == bs,
    decreases bs.len(),
{
    if bs.len() == 0 {
        assert(hex_decode(hex_bytes(bs)) =~= bs);
    } else {
        lemma_hex_bytes_props(bs.drop_last());
        let h = hex_bytes(bs);
        let b = bs.last();
        let hi = hex_digit((b / 16) as nat);
        let lo = hex_digit((b % 16) as nat);
        assert(h == hex_bytes(bs.drop_last()) + seq![hi, lo]);
        assert(is_hex_digit_byte(hi) && hi < 128);
        assert(is_hex_digit_byte(lo) && lo < 128);
        assert(all_hex_digit_bytes(h) && all_low_bytes(h)) by {
            assert(forall|i: int|
                0 <= i < h.len() - 2 ==> #[trigger] h[i] == hex_bytes(bs.drop_last())[i]);
            assert(h[h.len() - 2] == hi && h[h.len() - 1] == lo);
        }
        assert(h.drop_last().drop_last() =~= hex_bytes(bs.drop_last()));
        assert(hex_digit_val(hi) == b / 16);
        assert(hex_digit_val(lo) == b % 16);
        assert(hex_decode(h) == hex_decode(hex_bytes(bs.drop_last())) + seq![
            ((b / 16) * 16 + b % 16) as u8,
        ]);
        assert((b / 16) * 16 + b % 16 == b) by {
            vstd::arithmetic::div_mod::lemma_fundamental_div_mod(b as int, 16);
        }
        assert(hex_decode(h) =~= bs);
    }
}

/// Pushes the lowercase hex spelling of `bytes` onto `out`.
pub fn push_hex_bytes(bytes: &Vec<u8>, out: &mut Vec<u8>)
    ensures
        final(out)@ == old(out)@ + hex_bytes(bytes@),
{
    let mut i: usize = 0;
    proof {
        assert(bytes@.take(0) =~= Seq::<u8>::empty());
        assert(hex_bytes(bytes@.take(0)) =~= Seq::<u8>::empty());
        assert(out@ =~= old(out)@ + hex_bytes(bytes@.take(0)));
    }
    while i < bytes.len()
        invariant
            0 <= i <= bytes@.len(),
            out@ == old(out)@ + hex_bytes(bytes@.take(i as int)),
        decreases bytes@.len() - i,
    {
        let b = bytes[i];
        let h = b / 16;
        let l = b % 16;
        let hd: u8 = if h < 10 {
            48 + h
        } else {
            87 + h
        };
        let ld: u8 = if l < 10 {
            48 + l
        } else {
            87 + l
        };
        out.push(hd);
        out.push(ld);
        proof {
            let t = bytes@.take(i + 1);
            assert(t.drop_last() =~= bytes@.take(i as int));
            assert(t.last() == bytes@[i as int]);
            assert(hd == hex_digit((b / 16) as nat));
            assert(ld == hex_digit((b % 16) as nat));
            assert(out@ =~= old(out)@ + hex_bytes(t));
        }
        i = i + 1;
    }
    proof {
        assert(bytes@.take(bytes@.len() as int) =~= bytes@);
    }
}

/// Parses a hex string into its bytes, exactly as `parse_hex_bytes`
/// describes over the string's UTF-8 bytes.
pub fn parse_hex(s: &str) -> (r: Option<Vec<u8>>)
    ensures
        match r {
            Some(v) => parse_hex_bytes(vstd::utf8::encode_utf8(s@)) == Some(v@),
            None => parse_hex_bytes(vstd::utf8::encode_utf8(s@)) is None,
        },
{
    let bytes = s.as_bytes();
    let ghost whole = vstd::utf8::encode_utf8(s@);
    let n = bytes.len();
    if n % 2 != 0 {
        return None;
    }
    let mut acc: Vec<u8> = Vec::new();
    let mut i: usize = 0;
    proof {
        assert(whole.take(0) =~= Seq::<u8>::empty());
        assert(acc@ =~= hex_decode(whole.take(0)));
    }
    while i < n
        invariant
            0 <= i <= n,
            i % 2 == 0,
            n % 2 == 0,
            whole == vstd::utf8::encode_utf8(s@),
            n == whole.len(),
            bytes@ == whole,
            all_hex_digit_bytes(whole.take(i as int)),
            acc@ == hex_decode(whole.take(i as int)),
        decreases n - i,
    {
        let hd = bytes[i];
        let ld = bytes[i + 1];
        let hv: u8 = if 48 <= hd && hd <= 57 {
            (hd - 48) as u8
        } else if 97 <= hd && hd <= 102 {
            (hd - 87) as u8
        } else if 65 <= hd && hd <= 70 {
            (hd - 55) as u8
        } else {
            proof {
                assert(!is_hex_digit_byte(whole[i as int]));
                assert(!all_hex_digit_bytes(whole));
            }
            return None;
        };
        let lv: u8 = if 48 <= ld && ld <= 57 {
            (ld - 48) as u8
        } else if 97 <= ld && ld <= 102 {
            (ld - 87) as u8
        } else if 65 <= ld && ld <= 70 {
            (ld - 55) as u8
        } else {
            proof {
                assert(!is_hex_digit_byte(whole[i + 1]));
                assert(!all_hex_digit_bytes(whole));
            }
            return None;
        };
        acc.push(hv * 16 + lv);
        proof {
            let t = whole.take(i + 2);
            assert(t.drop_last().drop_last() =~= whole.take(i as int));
            assert(t[t.len() - 2] == whole[i as int]);
            assert(t.last() == whole[i + 1]);
            assert(hex_digit_val(whole[i as int]) == hv);
            assert(hex_digit_val(whole[i + 1]) == lv);
            assert(all_hex_digit_bytes(t)) by {
                assert(forall|j: int| 0 <= j < i + 2 ==> #[trigger] t[j] == whole[j]);
            }
            assert(acc@ =~= hex_decode(t));
        }
        i = i + 2;
    }
    proof {
        assert(whole.take(n as int) =~= whole);
    }
    Some(acc)
}

} // verus!
