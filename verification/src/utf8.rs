//! UTF-8 decoding of byte buffers.
use vstd::prelude::*;
use vstd::string::StringSliceAdditionalSpecFns;
use vstd::utf8::{decode_utf8, valid_utf8};

verus! {

/// The characters `bytes` encode, or `None` when they are not valid UTF-8.
pub open spec fn utf8_decoded(bytes: Seq<u8>) -> Option<Seq<char>> {
    if valid_utf8(bytes) {
        Some(decode_utf8(bytes))
    } else {
        None
    }
}

/// `String::from_utf8`: the text `bytes` encode, or `None` when they are not
/// valid UTF-8.
#[verifier::external_body]
pub(crate) fn utf8_decode(bytes: &[u8]) -> (r: Option<String>)
    ensures
        match utf8_decoded(bytes@) {
            Some(s) => r matches Some(t) && t@ == s,
            None => r is None,
        },
{
    String::from_utf8(bytes.to_vec()).ok()
}

/// A text made only of hex digits is ASCII, so its byte length is its
/// character count.
pub proof fn lemma_ascii_hex_byte_len(s: &str)
    requires
        crate::crypto::hex::hex_decodable(s@),
    ensures
        s.spec_bytes().len() == s@.len(),
{
    assert(vstd::utf8::is_ascii_chars(s@)) by {
        assert forall|i: int| 0 <= i < s@.len() implies '\0' <= #[trigger] s@[i] <= '\u{7f}' by {
            assert(crate::crypto::hex::is_hex_char(s@[i]));
        }
    }
    vstd::utf8::is_ascii_chars_encode_utf8(s@);
}

} // verus!
