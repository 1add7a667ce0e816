//! Display masking of sensitive fields (no key required).
use vstd::prelude::*;
use vstd::string::StringSliceAdditionalSpecFns;
use vstd::utf8::decode_utf8;

use crate::text::{
    chars_of, find_last, last_index_of, push_chars, push_str, repeat_char, slice_chars, split_chars,
    split_on, string_of,
};

verus! {

broadcast use {vstd::string::group_string_axioms, vstd::utf8::encode_utf8_decode_utf8};

/// `"1234"` → `"****1234"`.
pub open spec fn masked_card(last4: Seq<char>) -> Seq<char> {
    "****"@ + last4
}

/// `"john.doe@example.com"` → `"j***@example.com"`: the first character of the
/// local part, `***`, then everything from the last `@`; `"***"` without `@`.
pub open spec fn masked_email(email: Seq<char>) -> Seq<char> {
    match last_index_of(email, '@') {
        Some(at) => (if at > 0 { seq![email[0]] } else { Seq::<char>::empty() }) + "***"@ + email.skip(at),
        None => "***"@,
    }
}

/// Account numbers of at most 8 bytes are fully starred (one `*` per byte);
/// longer ones keep their first and last 4 bytes around `***`.
pub open spec fn masked_account(bytes: Seq<u8>) -> Seq<char> {
    let n = bytes.len();
    if n <= 8 {
        repeat_char('*', n)
    } else {
        decode_utf8(bytes.take(4)) + "***"@ + decode_utf8(bytes.skip(n - 4))
    }
}

/// Four dot-separated parts: the last becomes `xxx`; otherwise, with at
/// least three colon-separated segments, keep the first two and append
/// `xxxx`; otherwise `xxx`.
pub open spec fn masked_ip(ip: Seq<char>) -> Seq<char> {
    let parts = split_on(ip, '.');
    let segs = split_on(ip, ':');
    if parts.len() == 4 {
        parts[0] + "."@ + parts[1] + "."@ + parts[2] + ".xxx"@
    } else if segs.len() >= 3 {
        segs[0] + ":"@ + segs[1] + ":xxxx"@
    } else {
        "xxx"@
    }
}

/// Mask a card last-4 value for display.
pub fn mask_card_last4(last4: &str) -> (r: String)
    ensures
        r@ == masked_card(last4@),
{
    let mut v: Vec<char> = Vec::new();
    push_str(&mut v, "****");
    push_str(&mut v, last4);
    string_of(v.as_slice())
}

/// Mask an email address.
pub fn mask_email(email: &str) -> (r: String)
    ensures
        r@ == masked_email(email@),
{
    let cs = chars_of(email);
    match find_last(cs.as_slice(), '@') {
        Some(at) => {
            let mut v: Vec<char> = Vec::new();
            if at > 0 {
                v.push(cs[0]);
            }
            push_str(&mut v, "***");
            let domain = slice_chars(cs.as_slice(), at, cs.len());
            push_chars(&mut v, domain.as_slice());
            assert(domain@ =~= cs@.skip(at as int));
            string_of(v.as_slice())
        },
        None => string_of(chars_of("***").as_slice()),
    }
}

/// Mask an account number / IBAN, showing its first and last 4 bytes.
pub fn mask_account_number(number: &str) -> (r: String)
    requires
        number.spec_bytes().len() > 8 ==> {
            &&& vstd::utf8::is_char_boundary(number.spec_bytes(), 4)
            &&& vstd::utf8::is_char_boundary(number.spec_bytes(), number.spec_bytes().len() - 4)
        },
    ensures
        r@ == masked_account(number.spec_bytes()),
{
    let n = number.as_bytes().len();
    if n <= 8 {
        let mut v: Vec<char> = Vec::new();
        let mut i: usize = 0;
        while i < n
            invariant
                i <= n,
                v@ == repeat_char('*', i as nat),
            decreases n - i,
        {
            v.push('*');
            i = i + 1;
            assert(v@ =~= repeat_char('*', i as nat));
        }
        return string_of(v.as_slice());
    }
    let (head, _) = number.split_at(4);
    let (_, tail) = number.split_at(n - 4);
    let mut v = chars_of(head);
    push_str(&mut v, "***");
    push_str(&mut v, tail);
    proof {
        assert(head.spec_bytes() =~= number.spec_bytes().take(4));
        assert(tail.spec_bytes() =~= number.spec_bytes().skip(n - 4));
        assert(decode_utf8(head.spec_bytes()) == head@);
        assert(decode_utf8(tail.spec_bytes()) == tail@);
    }
    string_of(v.as_slice())
}

/// Mask an IP address: the IPv4 host octet becomes `xxx`; IPv6 keeps its
/// first two segments.
pub fn mask_ip(ip: &str) -> (r: String)
    ensures
        r@ == masked_ip(ip@),
{
    let cs = chars_of(ip);
    let parts = split_chars(cs.as_slice(), '.');
    if parts.len() == 4 {
        let mut v: Vec<char> = Vec::new();
        push_chars(&mut v, parts[0].as_slice());
        push_str(&mut v, ".");
        push_chars(&mut v, parts[1].as_slice());
        push_str(&mut v, ".");
        push_chars(&mut v, parts[2].as_slice());
        push_str(&mut v, ".xxx");
        return string_of(v.as_slice());
    }
    let segs = split_chars(cs.as_slice(), ':');
    if segs.len() >= 3 {
        let mut v: Vec<char> = Vec::new();
        push_chars(&mut v, segs[0].as_slice());
        push_str(&mut v, ":");
        push_chars(&mut v, segs[1].as_slice());
        push_str(&mut v, ":xxxx");
        return string_of(v.as_slice());
    }
    string_of(chars_of("xxx").as_slice())
}

} // verus!
