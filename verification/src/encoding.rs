//! Percent-encoding of byte sequences, its mathematical model and the
//! round-trip law between encoding and decoding.

use vstd::prelude::*;

verus! {

/// A byte kept verbatim by percent-encoding: ASCII alphanumerics and
/// `-`, `.`, `_`, `~`.
pub open spec fn is_unreserved(b: u8) -> bool {
    (48 <= b <= 57) || (65 <= b <= 90) || (97 <= b <= 122)
    || b == 45 || b == 46 || b == 95 || b == 126
}

/// The uppercase hexadecimal digit of a value below 16.
pub open spec fn hex_digit(n: int) -> u8 {
    if n < 10 {
        (48 + n) as u8
    } else {
        (55 + n) as u8
    }
}

/// Percent-encoding of one byte: unreserved bytes stand as they are, every
/// other byte becomes `%` followed by two uppercase hexadecimal digits.
pub open spec fn encode_byte(b: u8) -> Seq<u8> {
    if is_unreserved(b) {
        seq![b]
    } else {
        seq![37u8, hex_digit(b as int / 16), hex_digit(b as int % 16)]
    }
}

/// Percent-encoding of a byte sequence, byte by byte.
pub open spec fn encode_seq(s: Seq<u8>) -> Seq<u8>
    decreases s.len(),
{
    if s.len() == 0 {
        Seq::empty()
    } else {
        encode_byte(s[0]) + encode_seq(s.skip(1))
    }
}

/// An ASCII hexadecimal digit, either case.
pub open spec fn is_hex_byte(b: u8) -> bool {
    (48 <= b <= 57) || (65 <= b <= 70) || (97 <= b <= 102)
}

/// The value of an ASCII hexadecimal digit.
pub open spec fn hex_val(b: u8) -> int {
    if 48 <= b <= 57 {
        b - 48
    } else if 65 <= b <= 70 {
        b - 55
    } else {
        b - 87
    }
}

/// Lenient percent-decoding: `%` followed by two hexadecimal digits becomes
/// the byte they denote; any other byte, including a malformed escape, is
/// kept verbatim, so decoding is total.
pub open spec fn decode_seq(s: Seq<u8>) -> Seq<u8>
    decreases s.len(),
{
    if s.len() == 0 {
        Seq::empty()
    } else if s[0] == 37 && s.len() >= 3 && is_hex_byte(s[1]) && is_hex_byte(s[2]) {
        seq![(hex_val(s[1]) * 16 + hex_val(s[2])) as u8] + decode_seq(s.skip(3))
    } else {
        seq![s[0]] + decode_seq(s.skip(1))
    }
}

/// Relies on `urlencoding::encode_binary`: every byte except ASCII
/// alphanumerics and `-`, `.`, `_`, `~` becomes `%` followed by two
/// uppercase hexadecimal digits; the rest stand as they are.
#[verifier::external_body]
pub(crate) fn encode_component(b: &Vec<u8>) -> (r: Vec<u8>)
    ensures
        r@ == encode_seq(b@),
{
    urlencoding::encode_binary(b.as_slice()).into_owned().into_bytes()
}

proof fn lemma_hex_digit(n: int)
    requires
        0 <= n < 16,
    ensures
        is_hex_byte(hex_digit(n)),
        hex_val(hex_digit(n)) == n,
{
}

/// Decoding undoes encoding exactly.
proof fn lemma_decode_encode(s: Seq<u8>)
    ensures
        decode_seq(encode_seq(s)) == s,
    decreases s.len(),
{
    if s.len() == 0 {
    } else {
        let b = s[0];
        let rest = s.skip(1);
        lemma_decode_encode(rest);
        let es = encode_seq(s);
        if is_unreserved(b) {
            assert(es =~= seq![b] + encode_seq(rest));
            assert(es[0] == b && b != 37);
            assert(es.skip(1) =~= encode_seq(rest));
            assert(decode_seq(es) =~= seq![b] + rest);
            assert(seq![b] + rest =~= s);
        } else {
            let h1 = hex_digit(b as int / 16);
            let h2 = hex_digit(b as int % 16);
            lemma_hex_digit(b as int / 16);
            lemma_hex_digit(b as int % 16);
            assert(es =~= seq![37u8, h1, h2] + encode_seq(rest));
            assert(es[0] == 37 && es[1] == h1 && es[2] == h2 && es.len() >= 3);
            assert(hex_val(h1) * 16 + hex_val(h2) == b);
            assert(es.skip(3) =~= encode_seq(rest));
            assert(decode_seq(es) =~= seq![b] + rest);
            assert(seq![b] + rest =~= s);
        }
    }
}

/// Every byte of an encoded sequence is unreserved or the `%` sign; in
/// particular no `&`, `=`, `?` or `#` survives encoding.
pub proof fn lemma_encode_bytes_safe(s: Seq<u8>)
    ensures
        forall|i: int|
            0 <= i < encode_seq(s).len()
                ==> is_unreserved(#[trigger] encode_seq(s)[i]) || encode_seq(s)[i] == 37u8,
    decreases s.len(),
{
    if s.len() == 0 {
    } else {
        lemma_encode_bytes_safe(s.skip(1));
        assert forall|i: int| 0 <= i < encode_seq(s).len()
            implies is_unreserved(#[trigger] encode_seq(s)[i]) || encode_seq(s)[i] == 37u8 by {
            let eb = encode_byte(s[0]);
            if i >= eb.len() {
                assert(encode_seq(s)[i] == encode_seq(s.skip(1))[i - eb.len()]);
            }
        }
    }
}

/// Round trip: percent-decoding an encoded sequence gives back the original,
/// and re-encoding the decoded value gives back the encoded sequence.
pub proof fn lemma_encode_round_trip(s: Seq<u8>)
    ensures
        decode_seq(encode_seq(s)) == s,
        encode_seq(decode_seq(encode_seq(s))) == encode_seq(s),
{
    lemma_decode_encode(s);
}

} // verus!
