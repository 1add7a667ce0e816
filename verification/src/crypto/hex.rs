//! Hexadecimal encoding and decoding (the `hex` crate).
use vstd::prelude::*;

verus! {

/// Lower-case hex digit for a nibble.
pub open spec fn hex_digit(n: int) -> char {
    if n < 10 {
        ((n + 48) as u32) as char
    } else {
        ((n + 87) as u32) as char
    }
}

/// Lower-case hex encoding: two digits per byte, high nibble first.
pub open spec fn hex_lower(b: Seq<u8>) -> Seq<char> {
    Seq::new(2 * b.len(), |i: int| if i % 2 == 0 { hex_digit((b[i / 2] / 16) as int) } else { hex_digit((b[i / 2] % 16) as int) })
}

pub open spec fn is_hex_char(c: char) -> bool {
    ('0' <= c && c <= '9') || ('a' <= c && c <= 'f') || ('A' <= c && c <= 'F')
}

pub open spec fn hex_value(c: char) -> int {
    if '0' <= c && c <= '9' {
        (c as int) - 48
    } else if 'a' <= c && c <= 'f' {
        (c as int) - 87
    } else {
        (c as int) - 55
    }
}

/// `s` is an even-length run of hex digits of either case.
pub open spec fn hex_decodable(s: Seq<char>) -> bool {
    s.len() % 2 == 0 && forall|i: int| 0 <= i < s.len() ==> is_hex_char(#[trigger] s[i])
}

/// The bytes that a decodable hex text stands for.
pub open spec fn hex_decoded(s: Seq<char>) -> Seq<u8> {
    Seq::new(s.len() / 2, |i: int| (hex_value(s[2 * i]) * 16 + hex_value(s[2 * i + 1])) as u8)
}

pub proof fn lemma_decoded_len(s: Seq<char>)
    ensures
        hex_decoded(s).len() == s.len() / 2,
{
}

/// `hex::encode`: lower-case hex text of `data`.
#[verifier::external_body]
pub(crate) fn hex_encode(data: &[u8]) -> (r: String)
    ensures
        r@ == hex_lower(data@),
{
    ::hex::encode(data)
}

/// `hex::decode`: the bytes of an even-length hex text (either case), or
/// `None` for odd length or a non-hex character.
#[verifier::external_body]
pub(crate) fn hex_decode(text: &str) -> (r: Option<Vec<u8>>)
    ensures
        r is Some <==> hex_decodable(text@),
        r matches Some(b) ==> b@ == hex_decoded(text@),
{
    ::hex::decode(text).ok()
}

} // verus!
