//! Decimal text of integers: the spec-level representation, executable
//! emitters and parsers, and the round-trip lemmas that the codec's
//! `$numberLong`-style wrappers rest on.
//!
//! All parsing and emission is specified over UTF-8 bytes; `ascii_chars`
//! lifts a low byte sequence to the character sequence whose UTF-8
//! encoding it is.

use vstd::prelude::*;

verus! {

broadcast use {vstd::std_specs::vec::group_vec_axioms, vstd::string::group_string_axioms};

/// The characters spelled by a sequence of bytes below 0x80, one
/// character per byte.
pub open spec fn ascii_chars(b: Seq<u8>) -> Seq<char> {
    Seq::new(b.len(), |i: int| b[i] as char)
}

pub open spec fn all_low_bytes(b: Seq<u8>) -> bool {
    forall|i: int| 0 <= i < b.len() ==> #[trigger] b[i] < 128
}

/// Lifting low bytes to characters and encoding them back as UTF-8 gives
/// the bytes themselves.
pub proof fn lemma_ascii_chars_utf8(b: Seq<u8>)
    requires
        all_low_bytes(b),
    ensures
        vstd::utf8::encode_utf8(ascii_chars(b)) == b,
    decreases b.len(),
{
    if b.len() == 0 {
        assert(ascii_chars(b) =~= Seq::<char>::empty());
        assert(vstd::utf8::encode_utf8(ascii_chars(b)) =~= b);
    } else {
        let s = ascii_chars(b);
        let c0 = s[0];
        let b0 = b[0];
        assert(c0 == b0 as char);
        assert(c0 as u32 == b0 as u32);
        assert(vstd::utf8::has_width_1_encoding(c0 as u32));
        assert((((b0 as u32) & 0x7F) as u8) == b0) by (bit_vector)
            requires
                b0 < 128,
        ;
        assert(vstd::utf8::leading_byte_width_1(c0 as u32) == b0);
        assert(vstd::utf8::encode_scalar(c0 as u32) =~= seq![b0]);
        assert(s.drop_first() =~= ascii_chars(b.drop_first()));
        assert(all_low_bytes(b.drop_first())) by {
            assert(forall|i: int|
                0 <= i < b.len() - 1 ==> #[trigger] b.drop_first()[i] == b[i + 1]);
        }
        lemma_ascii_chars_utf8(b.drop_first());
        assert(vstd::utf8::encode_utf8(s) =~= seq![b[0]] + b.drop_first());
        assert(seq![b[0]] + b.drop_first() =~= b);
    }
}

/// Decimal digit bytes of `n`, most significant first, no sign.
pub open spec fn dec_bytes(n: nat) -> Seq<u8>
    decreases n,
{
    if n < 10 {
        seq![(48 + n % 10) as u8]
    } else {
        dec_bytes(n / 10).push((48 + n % 10) as u8)
    }
}

/// Decimal bytes of the integer `i`: a minus sign for negative values,
/// then the digits of the magnitude.
pub open spec fn int_bytes(i: int) -> Seq<u8> {
    if i < 0 {
        seq![45u8] + dec_bytes((-i) as nat)
    } else {
        dec_bytes(i as nat)
    }
}

pub open spec fn is_digit_byte(b: u8) -> bool {
    48 <= b <= 57
}

pub open spec fn digit_byte_val(b: u8) -> nat {
    (b - 48) as nat
}

pub open spec fn all_digit_bytes(b: Seq<u8>) -> bool {
    forall|i: int| 0 <= i < b.len() ==> is_digit_byte(#[trigger] b[i])
}

/// The numeric value of a digit-byte string, most significant first.
pub open spec fn digits_val(b: Seq<u8>) -> nat
    decreases b.len(),
{
    if b.len() == 0 {
        0
    } else {
        digits_val(b.drop_last()) * 10 + digit_byte_val(b.last())
    }
}

/// What a decimal byte string denotes as a signed 64-bit integer: an
/// optional minus sign, then at least one digit, the value within the
/// i64 range. Anything else denotes nothing.
pub open spec fn parse_i64_bytes(b: Seq<u8>) -> Option<i64> {
    if b.len() >= 1 && b[0] == 45 {
        let ds = b.subrange(1, b.len() as int);
        if ds.len() >= 1 && all_digit_bytes(ds) && digits_val(ds) <= 0x8000000000000000 {
            Some((-(digits_val(ds) as int)) as i64)
        } else {
            None
        }
    } else if b.len() >= 1 && all_digit_bytes(b) && digits_val(b) <= 0x7fffffffffffffff {
        Some(digits_val(b) as i64)
    } else {
        None
    }
}

/// What a decimal string of characters denotes: its UTF-8 bytes, read as
/// a decimal number.
pub open spec fn parse_i64_chars(s: Seq<char>) -> Option<i64> {
    parse_i64_bytes(vstd::utf8::encode_utf8(s))
}

/// The digit bytes of a number are digit bytes, below 0x80, and their
/// value is the number itself.
pub proof fn lemma_dec_bytes_val(n: nat)
    ensures
        dec_bytes(n).len() >= 1,
        all_digit_bytes(dec_bytes(n)),
        all_low_bytes(dec_bytes(n)),
        digits_val(dec_bytes(n)) == n,
    decreases n,
{
    if n < 10 {
        let s = dec_bytes(n);
        assert(s == seq![(48 + n % 10) as u8]);
        assert(digit_byte_val(s.last()) == n);
        assert(s.drop_last() =~= Seq::<u8>::empty());
        assert(digits_val(s.drop_last()) == 0);
        assert(s.len() == 1);
        assert(digits_val(s) == digits_val(s.drop_last()) * 10 + digit_byte_val(s.last()));
    } else {
        lemma_dec_bytes_val(n / 10);
        let s = dec_bytes(n);
        assert(s == dec_bytes(n / 10).push((48 + n % 10) as u8));
        assert(s.drop_last() =~= dec_bytes(n / 10));
        assert(digit_byte_val(s.last()) == n % 10);
        assert(digits_val(s) == digits_val(dec_bytes(n / 10)) * 10 + n % 10);
        assert(digits_val(s) == (n / 10) * 10 + n % 10);
        vstd::arithmetic::div_mod::lemma_fundamental_div_mod(n as int, 10);
        assert(all_digit_bytes(s) && all_low_bytes(s)) by {
            assert(forall|i: int|
                0 <= i < s.len() - 1 ==> #[trigger] s[i] == dec_bytes(n / 10)[i]);
        }
    }
}

/// The decimal text of an integer holds only minus signs and digits:
/// bytes between 45 and 57, all low.
pub proof fn lemma_int_bytes_low(i: int)
    ensures
        all_low_bytes(int_bytes(i)),
        int_bytes(i).len() >= 1,
        forall|j: int| 0 <= j < int_bytes(i).len() ==> 45 <= #[trigger] int_bytes(i)[j] <= 57,
{
    if i < 0 {
        lemma_dec_bytes_val((-i) as nat);
        let s = int_bytes(i);
        assert(forall|j: int| 0 <= j < s.len() ==> 45 <= #[trigger] s[j] <= 57 && s[j] < 128) by {
            assert(forall|j: int|
                1 <= j < s.len() ==> #[trigger] s[j] == dec_bytes((-i) as nat)[j - 1]);
            assert(s[0] == 45);
            assert(forall|j: int|
                1 <= j < s.len() ==> is_digit_byte(#[trigger] dec_bytes((-i) as nat)[j - 1]));
        }
    } else {
        lemma_dec_bytes_val(i as nat);
        let s = int_bytes(i);
        assert(forall|j: int| 0 <= j < s.len() ==> 45 <= #[trigger] s[j] <= 57 && s[j] < 128) by {
            assert(forall|j: int| 0 <= j < s.len() ==> is_digit_byte(#[trigger] s[j]));
        }
    }
}

/// Parsing the decimal text of an integer in the i64 range gives the
/// integer back.
pub proof fn lemma_parse_int_bytes(i: int)
    requires
        -0x8000000000000000 <= i <= 0x7fffffffffffffff,
    ensures
        parse_i64_bytes(int_bytes(i)) == Some(i as i64),
{
    if i < 0 {
        let m = (-i) as nat;
        lemma_dec_bytes_val(m);
        let s = int_bytes(i);
        assert(s[0] == 45);
        assert(s.subrange(1, s.len() as int) =~= dec_bytes(m));
    } else {
        let s = int_bytes(i);
        lemma_dec_bytes_val(i as nat);
        assert(s[0] != 45) by {
            assert(is_digit_byte(s[0]));
        }
    }
}

/// Appending digits never shrinks the value: the value of a prefix is a
/// lower bound for the value of the whole string.
pub proof fn lemma_digits_val_prefix(b: Seq<u8>, k: int)
    requires
        0 <= k <= b.len(),
    ensures
        digits_val(b.take(k)) <= digits_val(b),
    decreases b.len() - k,
{
    if k < b.len() {
        lemma_digits_val_prefix(b, k + 1);
        assert(b.take(k + 1).drop_last() =~= b.take(k));
        assert(digits_val(b.take(k + 1)) == digits_val(b.take(k)) * 10 + digit_byte_val(
            b.take(k + 1).last(),
        ));
        assert(digits_val(b.take(k)) * 10 >= digits_val(b.take(k))) by (nonlinear_arith);
    } else {
        assert(b.take(k) =~= b);
    }
}

/// Pushes the decimal digits of `n` onto `out`, most significant first.
pub fn push_dec_bytes(n: u64, out: &mut Vec<u8>)
    ensures
        final(out)@ == old(out)@ + dec_bytes(n as nat),
    decreases n,
{
    if n < 10 {
        out.push(48 + (n as u8));
        assert(out@ =~= old(out)@ + dec_bytes(n as nat));
    } else {
        push_dec_bytes(n / 10, out);
        out.push(48 + ((n % 10) as u8));
        assert(out@ =~= old(out)@ + dec_bytes(n as nat));
    }
}

/// Pushes the decimal text of `i` onto `out`, sign included.
pub fn push_int_bytes(i: i64, out: &mut Vec<u8>)
    ensures
        final(out)@ == old(out)@ + int_bytes(i as int),
{
    if i < 0 {
        out.push(45);
        let m: u64 = (-(i as i128)) as u64;
        push_dec_bytes(m, out);
        assert(out@ =~= old(out)@ + int_bytes(i as int));
    } else {
        push_dec_bytes(i as u64, out);
    }
}

/// Parses a decimal string as a signed 64-bit integer, exactly as
/// `parse_i64_chars` describes.
pub fn parse_i64(s: &str) -> (r: Option<i64>)
    ensures
        r == parse_i64_chars(s@),
{
    let bytes = s.as_bytes();
    let n = bytes.len();
    let ghost whole = vstd::utf8::encode_utf8(s@);
    proof {
        assert(bytes@ == whole);
    }
    if n == 0 {
        return None;
    }
    let neg = bytes[0] == 45;
    let start: usize = if neg {
        1
    } else {
        0
    };
    if n == start {
        return None;
    }
    let limit: u64 = if neg {
        9223372036854775808
    } else {
        9223372036854775807
    };
    let ghost ds = whole.subrange(start as int, whole.len() as int);
    proof {
        if start == 0 {
            assert(ds =~= whole);
        }
    }
    let mut acc: u64 = 0;
    let mut i: usize = start;
    while i < n
        invariant
            start <= i <= n,
            whole == vstd::utf8::encode_utf8(s@),
            n == whole.len(),
            bytes@ == whole,
            ds == whole.subrange(start as int, whole.len() as int),
            start == 0 || start == 1,
            n > start,
            neg <==> start == 1,
            neg ==> whole[0] == 45,
            !neg ==> whole[0] != 45,
            start == 0 ==> ds == whole,
            neg ==> limit == 0x8000000000000000,
            !neg ==> limit == 0x7fffffffffffffff,
            all_digit_bytes(ds.take(i - start)),
            acc == digits_val(ds.take(i - start)),
            acc <= limit,
        decreases n - i,
    {
        let b = bytes[i];
        proof {
            assert(ds[i - start] == whole[i as int]);
        }
        if b < 48 || b > 57 {
            proof {
                assert(0 <= i - start < ds.len());
                assert(!is_digit_byte(ds[i - start]));
                assert(!all_digit_bytes(ds));
                if neg {
                    assert(whole[0] == 45);
                    assert(ds == whole.subrange(1, whole.len() as int));
                } else {
                    assert(whole[0] != 45);
                    assert(ds == whole);
                }
                assert(parse_i64_bytes(whole) == None::<i64>);
                assert(parse_i64_chars(s@) == None::<i64>);
            }
            return None;
        }
        let d: u64 = (b - 48) as u64;
        proof {
            assert(is_digit_byte(ds[i - start]));
            assert(digit_byte_val(ds[i - start]) == d);
        }
        if acc > (limit - d) / 10 {
            proof {
                let k = i - start;
                assert(ds.take(k + 1).drop_last() =~= ds.take(k));
                assert(ds.take(k + 1).last() == ds[k]);
                assert(digits_val(ds.take(k + 1)) == acc * 10 + d);
                assert(acc * 10 + d > limit) by (nonlinear_arith)
                    requires
                        acc > (limit - d) / 10,
                        d <= limit,
                        limit <= 0x8000000000000000u64,
                ;
                lemma_digits_val_prefix(ds, k + 1);
                assert(digits_val(ds) > limit);
                assert(parse_i64_bytes(whole) == None::<i64>);
                assert(parse_i64_chars(s@) == None::<i64>);
            }
            return None;
        }
        proof {
            assert(acc * 10 + d <= limit) by (nonlinear_arith)
                requires
                    acc <= (limit - d) / 10,
                    d <= 9,
                    d <= limit,
                    limit <= 0x8000000000000000u64,
            ;
            let k = i - start;
            assert(ds.take(k + 1).drop_last() =~= ds.take(k));
            assert(ds.take(k + 1).last() == ds[k]);
            assert(all_digit_bytes(ds.take(k + 1))) by {
                assert(forall|j: int|
                    0 <= j < k + 1 ==> #[trigger] ds.take(k + 1)[j] == ds[j]);
            }
        }
        acc = acc * 10 + d;
        i = i + 1;
    }
    proof {
        assert(ds.take(n - start) =~= ds);
    }
    if neg {
        let r: i64 = if acc == 9223372036854775808 {
            i64::MIN
        } else {
            -(acc as i64)
        };
        Some(r)
    } else {
        Some(acc as i64)
    }
}

} // verus!
