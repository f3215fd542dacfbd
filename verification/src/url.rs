//! Percent-encoding of URL components, through the `urlencoding` crate.
use vstd::prelude::*;
use vstd::utf8::{decode_utf8, encode_utf8, valid_utf8};

verus! {

/// Bytes `urlencoding` leaves as they are: ASCII letters, digits and `-` `.` `_` `~`.
pub open spec fn is_unreserved(b: u8) -> bool {
    ||| 48 <= b <= 57
    ||| 65 <= b <= 90
    ||| 97 <= b <= 122
    ||| b == 45
    ||| b == 46
    ||| b == 95
    ||| b == 126
}

/// Upper-case hexadecimal digit for `d` (below sixteen).
pub open spec fn hex_digit(d: int) -> char {
    if d < 10 {
        (48 + d) as char
    } else {
        (55 + d) as char
    }
}

/// How `urlencoding` writes one byte: itself if unreserved, else `%` and two upper-case
/// hexadecimal digits.
pub open spec fn encode_byte(b: u8) -> Seq<char> {
    if is_unreserved(b) {
        seq![b as char]
    } else {
        seq!['%', hex_digit(b as int / 16), hex_digit(b as int % 16)]
    }
}

/// Percent-encoding of a byte string.
pub open spec fn percent_encoded(bytes: Seq<u8>) -> Seq<char>
    decreases bytes.len(),
{
    if bytes.len() == 0 {
        seq![]
    } else {
        encode_byte(bytes[0]) + percent_encoded(bytes.drop_first())
    }
}

/// Value of a hexadecimal digit byte (either case).
pub open spec fn hex_value(b: u8) -> Option<int> {
    if 48 <= b <= 57 {
        Some(b - 48)
    } else if 65 <= b <= 70 {
        Some(b - 55)
    } else if 97 <= b <= 102 {
        Some(b - 87)
    } else {
        None
    }
}

/// Percent-decoding of a byte string as `urlencoding::decode_binary` does it: `%` and
/// two hexadecimal digits become one byte; a `%` not followed by two of them is kept,
/// and `+` is kept as it is.
pub open spec fn percent_decoded(b: Seq<u8>) -> Seq<u8>
    decreases b.len(),
{
    if b.len() == 0 {
        seq![]
    } else if b[0] != 37 {
        seq![b[0]] + percent_decoded(b.drop_first())
    } else if b.len() < 3 {
        b
    } else {
        match (hex_value(b[1]), hex_value(b[2])) {
            (Some(h), Some(l)) => seq![(h * 16 + l) as u8] + percent_decoded(b.subrange(3, b.len() as int)),
            (Some(_), None) => seq![37u8, b[1]] + percent_decoded(b.subrange(2, b.len() as int)),
            (None, _) => seq![37u8] + percent_decoded(b.drop_first()),
        }
    }
}

/// The text `urlencoding::decode` gives for `s`, where the decoded bytes are UTF-8.
pub open spec fn url_decoded(s: Seq<char>) -> Option<Seq<char>> {
    let bytes = percent_decoded(encode_utf8(s));
    if valid_utf8(bytes) {
        Some(decode_utf8(bytes))
    } else {
        None
    }
}

/// Calls `urlencoding::encode`. Claimed, as the crate's source shows: every UTF-8 byte of
/// `s` is written as `encode_byte` writes it.
#[verifier::external_body]
pub(crate) fn url_encode(s: &str) -> (r: String)
    ensures
        r@ == percent_encoded(encode_utf8(s@)),
{
    urlencoding::encode(s).into_owned()
}

/// Calls `urlencoding::decode`. Claimed, as the crate's source shows: the bytes are
/// percent-decoded as `percent_decoded` says, and the result is their text where they
/// are valid UTF-8, `None` where they are not.
#[verifier::external_body]
pub(crate) fn url_decode(s: &str) -> (r: Option<String>)
    ensures
        match r {
            Some(t) => url_decoded(s@) == Some(t@),
            None => url_decoded(s@) is None,
        },
{
    match urlencoding::decode(s) {
        Ok(text) => Some(text.into_owned()),
        Err(_) => None,
    }
}

} // verus!

verus! {

/// The ASCII byte of hexadecimal digit `d` (below sixteen), upper case.
pub open spec fn hex_byte(d: int) -> u8 {
    if d < 10 {
        (48 + d) as u8
    } else {
        (55 + d) as u8
    }
}

/// The bytes `urlencoding` writes for byte `b`.
pub open spec fn encode_byte_bytes(b: u8) -> Seq<u8> {
    if is_unreserved(b) {
        seq![b]
    } else {
        seq![37u8, hex_byte(b as int / 16), hex_byte(b as int % 16)]
    }
}

/// The bytes of the percent-encoding of a byte string.
pub open spec fn percent_encoded_bytes(bytes: Seq<u8>) -> Seq<u8>
    decreases bytes.len(),
{
    if bytes.len() == 0 {
        seq![]
    } else {
        encode_byte_bytes(bytes[0]) + percent_encoded_bytes(bytes.drop_first())
    }
}

proof fn lemma_encode_utf8_concat(a: Seq<char>, b: Seq<char>)
    ensures
        encode_utf8(a + b) == encode_utf8(a) + encode_utf8(b),
    decreases a.len(),
{
    if a.len() == 0 {
        assert(a + b =~= b);
    } else {
        assert((a + b).drop_first() =~= a.drop_first() + b);
        lemma_encode_utf8_concat(a.drop_first(), b);
        assert(encode_utf8(a + b) =~= encode_utf8(a) + encode_utf8(b));
    }
}

proof fn lemma_encode_byte_ascii(b: u8)
    ensures
        encode_utf8(encode_byte(b)) == encode_byte_bytes(b),
{
    let cs = encode_byte(b);
    assert(vstd::utf8::is_ascii_chars(cs));
    vstd::utf8::is_ascii_chars_encode_utf8(cs);
    assert(encode_utf8(cs) =~= encode_byte_bytes(b));
}

proof fn lemma_encoded_bytes(bytes: Seq<u8>)
    ensures
        encode_utf8(percent_encoded(bytes)) == percent_encoded_bytes(bytes),
    decreases bytes.len(),
{
    if bytes.len() > 0 {
        lemma_encode_utf8_concat(encode_byte(bytes[0]), percent_encoded(bytes.drop_first()));
        lemma_encode_byte_ascii(bytes[0]);
        lemma_encoded_bytes(bytes.drop_first());
    } else {
        assert(encode_utf8(percent_encoded(bytes)) =~= percent_encoded_bytes(bytes));
    }
}

proof fn lemma_decode_encoded_bytes(bytes: Seq<u8>)
    ensures
        percent_decoded(percent_encoded_bytes(bytes)) == bytes,
    decreases bytes.len(),
{
    if bytes.len() > 0 {
        let b = bytes[0];
        let rest = percent_encoded_bytes(bytes.drop_first());
        let all = encode_byte_bytes(b) + rest;
        assert(all == percent_encoded_bytes(bytes));
        lemma_decode_encoded_bytes(bytes.drop_first());
        if is_unreserved(b) {
            assert(all[0] == b);
            assert(all.drop_first() =~= rest);
        } else {
            assert(all[0] == 37u8);
            assert(all.subrange(3, all.len() as int) =~= rest);
            assert(hex_value(all[1]) == Some(b as int / 16));
            assert(hex_value(all[2]) == Some(b as int % 16));
        }
        assert(percent_decoded(all) =~= bytes);
    } else {
        assert(percent_encoded_bytes(bytes) =~= Seq::<u8>::empty());
    }
}

/// Decoding what `url_encode` wrote gives the encoded text back.
pub proof fn lemma_decode_undoes_encode(s: Seq<char>)
    ensures
        url_decoded(percent_encoded(encode_utf8(s))) == Some(s),
{
    lemma_encoded_bytes(encode_utf8(s));
    lemma_decode_encoded_bytes(encode_utf8(s));
    vstd::utf8::encode_utf8_valid_utf8(s);
    vstd::utf8::encode_utf8_decode_utf8(s);
}

} // verus!
