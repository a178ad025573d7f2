//! JSON string escaping over UTF-8 bytes, and the executable emitters
//! that append literal text and escaped string contents to an output
//! buffer.

use vstd::prelude::*;

verus! {

broadcast use vstd::std_specs::vec::group_vec_axioms;

/// How one byte of string content appears inside a JSON string literal:
/// quote and backslash get a backslash, control bytes become `\u00XX`,
/// everything else stands as it is. Multi-byte UTF-8 sequences pass
/// through unchanged, byte for byte.
pub open spec fn esc_byte(x: u8) -> Seq<u8> {
    if x == 34 {
        seq![92u8, 34u8]
    } else if x == 92 {
        seq![92u8, 92u8]
    } else if x < 32 {
        seq![92u8, 117u8, 48u8, 48u8, crate::hex::hex_digit((x / 16) as nat), crate::hex::hex_digit(
            (x % 16) as nat,
        )]
    } else {
        seq![x]
    }
}

/// The escaped form of a byte string.
pub open spec fn escape(b: Seq<u8>) -> Seq<u8>
    decreases b.len(),
{
    if b.len() == 0 {
        Seq::empty()
    } else {
        escape(b.drop_last()) + esc_byte(b.last())
    }
}

/// True of a byte that the escaper passes through unchanged.
pub open spec fn plain_byte(x: u8) -> bool {
    x != 34 && x != 92 && x >= 32
}

pub open spec fn all_plain_bytes(b: Seq<u8>) -> bool {
    forall|i: int| 0 <= i < b.len() ==> plain_byte(#[trigger] b[i])
}

/// Escaping changes nothing in a string of plain bytes.
pub proof fn lemma_escape_plain(b: Seq<u8>)
    requires
        all_plain_bytes(b),
    ensures
        escape(b) == b,
    decreases b.len(),
{
    if b.len() == 0 {
        assert(escape(b) =~= b);
    } else {
        assert(all_plain_bytes(b.drop_last())) by {
            assert(forall|i: int|
                0 <= i < b.len() - 1 ==> #[trigger] b.drop_last()[i] == b[i]);
        }
        lemma_escape_plain(b.drop_last());
        assert(plain_byte(b.last()));
        assert(esc_byte(b.last()) == seq![b.last()]);
        assert(escape(b) =~= b);
    }
}

/// Appends the UTF-8 bytes of `s` to `out`, unescaped.
pub fn push_str_bytes(s: &str, out: &mut Vec<u8>)
    ensures
        final(out)@ == old(out)@ + vstd::utf8::encode_utf8(s@),
{
    let bytes = s.as_bytes();
    let ghost whole = vstd::utf8::encode_utf8(s@);
    let n = bytes.len();
    let mut i: usize = 0;
    proof {
        assert(out@ =~= old(out)@ + whole.take(0));
    }
    while i < n
        invariant
            0 <= i <= n,
            whole == vstd::utf8::encode_utf8(s@),
            n == whole.len(),
            bytes@ == whole,
            out@ == old(out)@ + whole.take(i as int),
        decreases n - i,
    {
        out.push(bytes[i]);
        proof {
            assert(whole.take(i + 1) =~= whole.take(i as int).push(whole[i as int]));
            assert(out@ =~= old(out)@ + whole.take(i + 1));
        }
        i = i + 1;
    }
    proof {
        assert(whole.take(n as int) =~= whole);
    }
}

/// Appends the escaped form of the UTF-8 bytes of `s` to `out`.
pub fn push_escaped(s: &str, out: &mut Vec<u8>)
    ensures
        final(out)@ == old(out)@ + escape(vstd::utf8::encode_utf8(s@)),
{
    let bytes = s.as_bytes();
    let ghost whole = vstd::utf8::encode_utf8(s@);
    let n = bytes.len();
    let mut i: usize = 0;
    proof {
        assert(escape(whole.take(0)) =~= Seq::<u8>::empty());
        assert(out@ =~= old(out)@ + escape(whole.take(0)));
    }
    while i < n
        invariant
            0 <= i <= n,
            whole == vstd::utf8::encode_utf8(s@),
            n == whole.len(),
            bytes@ == whole,
            out@ == old(out)@ + escape(whole.take(i as int)),
        decreases n - i,
    {
        let b = bytes[i];
        if b == 34 {
            out.push(92);
            out.push(34);
        } else if b == 92 {
            out.push(92);
            out.push(92);
        } else if b < 32 {
            let h = b / 16;
            let l = b % 16;
            out.push(92);
            out.push(117);
            out.push(48);
            out.push(48);
            out.push(if h < 10 {
                48 + h
            } else {
                87 + h
            });
            out.push(if l < 10 {
                48 + l
            } else {
                87 + l
            });
        } else {
            out.push(b);
        }
        proof {
            let t = whole.take(i + 1);
            assert(t.drop_last() =~= whole.take(i as int));
            assert(t.last() == whole[i as int]);
            assert(escape(t) == escape(whole.take(i as int)) + esc_byte(b));
            assert(out@ =~= old(out)@ + escape(t));
        }
        i = i + 1;
    }
    proof {
        assert(whole.take(n as int) =~= whole);
    }
}

} // verus!
