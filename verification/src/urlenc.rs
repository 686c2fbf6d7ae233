//! Percent-encoding of query-parameter values, specified byte for byte.

use vstd::prelude::*;

verus! {

/// A byte that percent-encoding leaves as it is: an ASCII alphanumeric or
/// one of `-`, `.`, `_`, `~`.
pub open spec fn is_url_unreserved(b: u8) -> bool {
    (48 <= b && b <= 57) || (65 <= b && b <= 90) || (97 <= b && b <= 122) || b == 45 || b == 46
        || b == 95 || b == 126
}

/// The upper-case hex digit of a value below 16.
pub open spec fn upper_hex_digit(n: u8) -> char {
    if n < 10 {
        ((n + 48) as u8) as char
    } else {
        ((n + 55) as u8) as char
    }
}

/// How one byte appears in the encoded text: itself, or a percent escape.
pub open spec fn url_enc_byte(b: u8) -> Seq<char> {
    if is_url_unreserved(b) {
        seq![b as char]
    } else {
        seq!['%', upper_hex_digit(b / 16), upper_hex_digit(b % 16)]
    }
}

/// The percent-encoding of a byte sequence.
pub open spec fn url_encoded_bytes(bs: Seq<u8>) -> Seq<char>
    decreases bs.len(),
{
    if bs.len() == 0 {
        Seq::empty()
    } else {
        url_enc_byte(bs[0]) + url_encoded_bytes(bs.drop_first())
    }
}

/// The percent-encoding of a string: its UTF-8 bytes, encoded.
pub open spec fn url_encoded(s: Seq<char>) -> Seq<char> {
    url_encoded_bytes(vstd::utf8::encode_utf8(s))
}

/// Percent-encode a string for use as a query-parameter value.
///
/// Relies on `urlencoding::encode`: it percent-encodes every UTF-8 byte
/// except ASCII alphanumerics and `-`, `.`, `_`, `~`, writing two upper-case
/// hex digits after each `%`.
#[verifier::external_body]
pub(crate) fn url_encode(s: &str) -> (r: String)
    ensures
        r@ == url_encoded(s@),
{
    urlencoding::encode(s).into_owned()
}

} // verus!
