//! The checks around statement uploads and reconciliation runs: transport
//! decoding, fingerprint and status checks, import status, and the links
//! from duplicate statement lines to their canonical line.
use vstd::prelude::*;

use crate::text::text;

use base64::Engine;

use crate::crypto::digest::sha256_of;
use crate::crypto::hex::hex_lower;
use crate::error::AppError;
use crate::reconciliation::discrepancy::DuplicateMap;
use crate::reconciliation::importer::{fingerprint, verify_fingerprint};
use crate::text::{chars_of, decimal, lowercased, push_chars, push_str, str_eq, string_of};

verus! {

broadcast use {vstd::string::group_string_axioms, vstd::slice::group_slice_axioms};


/// `POST /reconciliation/statements` body.
pub struct UploadStatementRequest {
    pub filename: String,
    pub source: String,
    pub content_base64: String,
    pub expected_fingerprint: Option<String>,
}

/// The bytes standard base64 (with padding) decodes `text` to, or the
/// decoder's error text.
pub uninterp spec fn base64_decoded(text: Seq<char>) -> Result<Seq<u8>, Seq<char>>;

/// `base64::engine::general_purpose::STANDARD.decode`.  Claims only that the
/// result is the named decoding of `text`.
#[verifier::external_body]
fn base64_decode(text: &str) -> (r: Result<Vec<u8>, String>)
    ensures
        match base64_decoded(text@) {
            Ok(b) => r matches Ok(v) && v@ == b,
            Err(e) => r matches Err(m) && m@ == e,
        },
{
    base64::engine::general_purpose::STANDARD.decode(text).map_err(|e| e.to_string())
}

/// Decode an uploaded file's transport text.
pub fn decode_upload(content_base64: &str) -> (r: Result<Vec<u8>, AppError>)
    ensures
        match base64_decoded(content_base64@) {
            Ok(b) => r matches Ok(v) && v@ == b,
            Err(e) => r matches Err(AppError::BadRequest(m)) && m@ == "content_base64 is not valid base64: "@ + e,
        },
{
    match base64_decode(content_base64) {
        Ok(v) => Ok(v),
        Err(e) => {
            let mut m: Vec<char> = Vec::new();
            push_str(&mut m, "content_base64 is not valid base64: ");
            push_str(&mut m, e.as_str());
            Err(AppError::BadRequest(string_of(m.as_slice())))
        },
    }
}

/// The fingerprint of an uploaded statement, after checking it against the
/// expected one when the client sent one.
pub fn check_upload_fingerprint(content: &[u8], expected: Option<&str>) -> (r: Result<String, AppError>)
    ensures
        match expected {
            Some(e) => if hex_lower(sha256_of(content@)) == lowercased(e@) {
                r matches Ok(fp) && fp@ == hex_lower(sha256_of(content@))
            } else {
                r matches Err(AppError::BadRequest(m)) && m@ == "Fingerprint mismatch — expected "@ + e@ + ", got "@
                    + hex_lower(sha256_of(content@))
            },
            None => r matches Ok(fp) && fp@ == hex_lower(sha256_of(content@)),
        },
{
    let fp = fingerprint(content);
    match expected {
        Some(e) => if !verify_fingerprint(content, e) {
            let mut m: Vec<char> = Vec::new();
            push_str(&mut m, "Fingerprint mismatch — expected ");
            push_str(&mut m, e);
            push_str(&mut m, ", got ");
            push_str(&mut m, fp.as_str());
            return Err(AppError::BadRequest(string_of(m.as_slice())));
        },
        None => {},
    }
    Ok(fp)
}

/// The status of a stored import: `completed` when the file validated,
/// otherwise `failed`.
pub fn import_status(is_valid: bool) -> (r: &'static str)
    ensures
        r@ == (if is_valid { "completed"@ } else { "failed"@ }),
{
    if is_valid { "completed" } else { "failed" }
}

/// `link` joins a row of group `g` to the group's canonical row (1-based
/// line numbers).
pub open spec fn links_to_canonical(dup_map: DuplicateMap, g: int, link: (u128, u128)) -> bool {
    let idx = dup_map.group_indices(g);
    &&& 0 <= g < dup_map.group_count()
    &&& idx.len() > 0
    &&& idx.contains((link.0 - 1) as usize)
    &&& link.1 - 1 == min_of(idx)
    &&& link.0 != link.1
}

/// The links of group `g`, whose canonical position is `c`: one for each
/// other position of `idx`, in order, as 1-based line numbers.
pub open spec fn group_links(idx: Seq<usize>, c: int, g: int) -> Seq<(u128, u128, usize)>
    decreases idx.len(),
{
    if idx.len() == 0 {
        seq![]
    } else {
        let rest = group_links(idx.drop_last(), c, g);
        if idx.last() != c { rest.push(((idx.last() + 1) as u128, (c + 1) as u128, g as usize)) } else { rest }
    }
}

/// The links of the first `n` groups, group after group.
pub open spec fn all_links(dup_map: DuplicateMap, n: int) -> Seq<(u128, u128, usize)>
    decreases n,
{
    if n <= 0 {
        seq![]
    } else {
        let idx = dup_map.group_indices(n - 1);
        all_links(dup_map, n - 1) + (if idx.len() > 0 { group_links(idx, min_of(idx), n - 1) } else { seq![] })
    }
}

/// For every non-canonical row of every duplicated reference, its 1-based
/// line number, the line number of its group's canonical (lowest) row, and
/// the group.
pub fn duplicate_line_links(dup_map: &DuplicateMap) -> (r: Vec<(u128, u128, usize)>)
    ensures
        r@ == all_links(*dup_map, dup_map.group_count() as int),
        forall|k: int| 0 <= k < r@.len() ==> links_to_canonical(*dup_map, r@[k].2 as int, (r@[k].0, r@[k].1)),
{
    let mut links: Vec<(u128, u128, usize)> = Vec::new();
    let n = dup_map.len();
    let mut g: usize = 0;
    while g < n
        invariant
            g <= n,
            n == dup_map.group_count(),
            links@ == all_links(*dup_map, g as int),
            forall|k: int| 0 <= k < links@.len() ==> links_to_canonical(*dup_map, links@[k].2 as int, (links@[k].0, links@[k].1)),
        decreases n - g,
    {
        let indices = dup_map.group_at(g);
        if indices.len() > 0 {
            let c = crate::reconciliation::discrepancy::canonical_index(indices.as_slice());
            proof {
                lemma_min_of(indices@, c);
            }
            let ghost start = links@;
            let mut i: usize = 0;
            while i < indices.len()
                invariant
                    i <= indices@.len(),
                    indices@.len() > 0,
                    g < dup_map.group_count(),
                    indices@ == dup_map.group_indices(g as int),
                    c == min_of(indices@),
                    start == all_links(*dup_map, g as int),
                    links@ == start + group_links(indices@.take(i as int), c as int, g as int),
                    forall|k: int| 0 <= k < links@.len() ==> links_to_canonical(*dup_map, links@[k].2 as int, (links@[k].0, links@[k].1)),
                decreases indices.len() - i,
            {
                let idx = indices[i];
                proof {
                    assert(indices@.take(i + 1).drop_last() =~= indices@.take(i as int));
                    assert(indices@.take(i + 1).last() == idx);
                }
                if idx != c {
                    let ghost before = links@;
                    links.push((idx as u128 + 1, c as u128 + 1, g));
                    proof {
                        assert(links@ =~= start + group_links(indices@.take(i + 1), c as int, g as int));
                        assert forall|k: int| 0 <= k < links@.len() implies links_to_canonical(*dup_map, links@[k].2 as int, (links@[k].0, links@[k].1)) by {
                            if k < before.len() {
                                assert(links@[k] == before[k]);
                            } else {
                                assert(indices@[i as int] == idx);
                                assert(dup_map.group_indices(g as int).contains(idx));
                            }
                        }
                    }
                } else {
                    proof {
                        assert(links@ =~= start + group_links(indices@.take(i + 1), c as int, g as int));
                    }
                }
                i = i + 1;
            }
            proof {
                assert(indices@.take(indices@.len() as int) =~= indices@);
            }
        } else {
            proof {
                assert(links@ =~= all_links(*dup_map, g + 1));
            }
        }
        g = g + 1;
    }
    links
}

/// The lowest element of a non-empty sequence.
pub open spec fn min_of(s: Seq<usize>) -> int
    decreases s.len(),
{
    if s.len() <= 1 {
        s[0] as int
    } else {
        let m = min_of(s.drop_last());
        if s.last() < m { s.last() as int } else { m }
    }
}

proof fn lemma_min_of(s: Seq<usize>, c: usize)
    requires
        s.len() > 0,
        s.contains(c),
        forall|k: int| 0 <= k < s.len() ==> c <= s[k],
    ensures
        c == min_of(s),
    decreases s.len(),
{
    if s.len() > 1 {
        let d = s.drop_last();
        if d.contains(c) {
            assert forall|k: int| 0 <= k < d.len() implies c <= d[k] by {
                assert(d[k] == s[k]);
            }
            lemma_min_of(d, c);
        } else {
            let k = choose|k: int| 0 <= k < s.len() && s[k] == c;
            if k < s.len() - 1 {
                assert(d[k] == c);
            }
            lemma_min_bound(d);
            assert(s.last() == c);
        }
    }
}

proof fn lemma_min_bound(s: Seq<usize>)
    requires
        s.len() > 0,
    ensures
        exists|k: int| 0 <= k < s.len() && s[k] == min_of(s),
    decreases s.len(),
{
    if s.len() > 1 {
        lemma_min_bound(s.drop_last());
        let k = choose|k: int| 0 <= k < s.drop_last().len() && s.drop_last()[k] == min_of(s.drop_last());
        assert(s[k] == s.drop_last()[k]);
        if s.last() < min_of(s.drop_last()) {
            assert(s[s.len() - 1] == min_of(s));
        }
    } else {
        assert(s[0] == min_of(s));
    }
}

/// A stored import can be reconciled when it passed validation, matches the
/// expected hash if one is given, and still has its content.
pub fn check_import_for_run(status: &str, file_hash: &str, expected: Option<&str>, has_content: bool) -> (r: Result<(), AppError>)
    ensures
        status@ == "failed"@ ==> (r matches Err(AppError::BadRequest(m))
            && m@ == "Cannot reconcile: the statement import failed format validation"@),
        status@ != "failed"@ && (expected matches Some(e) && e@ != file_hash@) ==> (r matches Err(AppError::BadRequest(m))
            && m@ == "Statement hash mismatch"@),
        status@ != "failed"@ && !(expected matches Some(e) && e@ != file_hash@) && !has_content ==> (r matches Err(
            AppError::BadRequest(m),
        ) && m@ == "No statement content to process"@),
        status@ != "failed"@ && !(expected matches Some(e) && e@ != file_hash@) && has_content ==> r is Ok,
{
    if str_eq(status, "failed") {
        return Err(AppError::BadRequest(text("Cannot reconcile: the statement import failed format validation")));
    }
    match expected {
        Some(e) => if !str_eq(file_hash, e) {
            return Err(AppError::BadRequest(text("Statement hash mismatch")));
        },
        None => {},
    }
    if !has_content {
        return Err(AppError::BadRequest(text("No statement content to process")));
    }
    Ok(())
}

/// `errors` joined by `"; "`.
pub open spec fn joined(errors: Seq<Seq<char>>) -> Seq<char>
    decreases errors.len(),
{
    if errors.len() == 0 {
        Seq::empty()
    } else if errors.len() == 1 {
        errors[0]
    } else {
        joined(errors.drop_last()) + "; "@ + errors.last()
    }
}

/// `"Statement has {n} format error(s): {errors joined by "; "}"`.
pub fn format_errors_message(errors: &Vec<String>) -> (r: String)
    ensures
        r@ == "Statement has "@ + decimal(errors@.len()) + " format error(s): "@
            + joined(errors@.map_values(|s: String| s@)),
{
    let ghost ev = errors@.map_values(|s: String| s@);
    let mut j: Vec<char> = Vec::new();
    let mut i: usize = 0;
    while i < errors.len()
        invariant
            i <= errors@.len(),
            ev == errors@.map_values(|s: String| s@),
            j@ == joined(ev.take(i as int)),
        decreases errors.len() - i,
    {
        assert(ev.take(i + 1).drop_last() =~= ev.take(i as int));
        assert(ev.take(i + 1).last() == errors@[i as int]@);
        if i > 0 {
            push_str(&mut j, "; ");
        } else {
            assert(ev.take(0).len() == 0);
        }
        push_str(&mut j, errors[i].as_str());
        proof {
            if i == 0 {
                assert(j@ =~= ev.take(1)[0]);
            }
        }
        i = i + 1;
    }
    assert(ev.take(i as int) =~= ev);
    let mut m: Vec<char> = Vec::new();
    push_str(&mut m, "Statement has ");
    let n = crate::text::decimal_u128(errors.len() as u128);
    push_chars(&mut m, n.as_slice());
    push_str(&mut m, " format error(s): ");
    push_chars(&mut m, j.as_slice());
    string_of(m.as_slice())
}

} // verus!
