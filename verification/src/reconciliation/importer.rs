//! Strict statement import: UTF-8 and CSV format validation, per-row checks,
//! and the SHA-256 fingerprint of the raw file.
//!
//! Accepted format: a header row naming `date`, `ref`, `amount`, `type` and
//! optionally `description` (any case, any order), then one row per entry.
//! `date` is `YYYY-MM-DD`, `amount` a non-negative decimal (commas are
//! ignored), `type` `debit` or `credit` (any case), `ref` non-empty.
use vstd::prelude::*;

use crate::crypto::digest::{sha256, sha256_of};
use crate::crypto::hex::{hex_encode, hex_lower};
use crate::date::{date_parsed, parse_date, Date};
use crate::money::{amount_text, format_amount, parse_amount, parsed_amount};
use crate::reconciliation::models::{EntryType, ParseResult, StatementRecord};
use crate::table::{csv_data_rows, csv_header_row, csv_headers, csv_records, fields_view, row_view, rows_view};
use crate::text::{
    ascii_lower, chars_of, chars_eq, decimal, decimal_u128, is_ascii_text, lowercased, push_chars, push_str,
    remove_char, str_eq, string_of, to_lowercase, trim_chars, trimmed, without_char,
};
use crate::utf8::{utf8_decode, utf8_decoded};

verus! {

broadcast use {vstd::string::group_string_axioms, vstd::slice::group_slice_axioms};

// ------------------------------------------------------------------
// Fingerprint
// ------------------------------------------------------------------

/// SHA-256 of the raw file bytes, lower-case hex.
pub fn fingerprint(data: &[u8]) -> (r: String)
    ensures
        r@ == hex_lower(sha256_of(data@)),
{
    let d = sha256(data);
    hex_encode(d.as_slice())
}

/// Lower-case hex text is ASCII and unchanged by ASCII lower-casing.
proof fn lemma_hex_lower_is_lower_ascii(b: Seq<u8>)
    ensures
        is_ascii_text(hex_lower(b)),
        hex_lower(b).map_values(|c: char| ascii_lower(c)) == hex_lower(b),
{
    let h = hex_lower(b);
    assert forall|i: int| 0 <= i < h.len() implies (#[trigger] h[i] as u32) < 128 && ascii_lower(h[i]) == h[i] by {
        let byte = b[i / 2];
        assert(byte / 16 < 16);
        assert(byte % 16 < 16);
    }
    assert(h.map_values(|c: char| ascii_lower(c)) =~= h);
}

/// Whether the SHA-256 of `data` equals `expected_hex`, compared after
/// lower-casing `expected_hex`.
pub fn verify_fingerprint(data: &[u8], expected_hex: &str) -> (r: bool)
    ensures
        r == (hex_lower(sha256_of(data@)) == lowercased(expected_hex@)),
        expected_hex@ == hex_lower(sha256_of(data@)) ==> r,
{
    let fp = fingerprint(data);
    let lower = to_lowercase(expected_hex);
    proof {
        if expected_hex@ == hex_lower(sha256_of(data@)) {
            lemma_hex_lower_is_lower_ascii(sha256_of(data@));
        }
    }
    str_eq(fp.as_str(), lower.as_str())
}

// ------------------------------------------------------------------
// Specification of the validation
// ------------------------------------------------------------------

/// Positions of the statement columns in a row.
#[derive(Debug, Clone, Copy, PartialEq, Eq, Structural)]
pub struct Columns {
    pub date: usize,
    pub reference: usize,
    pub amount: usize,
    pub kind: usize,
    pub description: Option<usize>,
}

/// A parsed record as plain values: reference, amount (micros), type, date,
/// description.
pub open spec fn record_view(r: StatementRecord) -> (Seq<char>, i64, EntryType, Date, Option<Seq<char>>) {
    (r.reference@, r.amount, r.entry_type, r.date, match r.description {
        Some(d) => Some(d@),
        None => None,
    })
}

/// Field `i` of a row, trimmed; empty when the row has no such field.
pub open spec fn field_text(row: Seq<Seq<char>>, i: int) -> Seq<char> {
    if 0 <= i < row.len() {
        trimmed(row[i])
    } else {
        Seq::empty()
    }
}

/// `"Line {n}: "`.
pub open spec fn line_prefix(n: nat) -> Seq<char> {
    "Line "@ + decimal(n) + ": "@
}

/// The record of data row `row` at file line `n`, or the message that
/// rejects it.  Checks run in order: ref, date, amount, sign, type.
pub open spec fn row_result(row: Seq<Seq<char>>, c: Columns, n: nat) -> Result<(Seq<char>, i64, EntryType, Date, Option<Seq<char>>), Seq<char>> {
    let reference = field_text(row, c.reference as int);
    let date_str = field_text(row, c.date as int);
    let amount_str = without_char(field_text(row, c.amount as int), ',');
    let kind = lowercased(field_text(row, c.kind as int));
    let description = match c.description {
        Some(i) => if field_text(row, i as int).len() > 0 { Some(field_text(row, i as int)) } else { None },
        None => None,
    };
    if reference.len() == 0 {
        Err(line_prefix(n) + "'ref' must not be empty"@)
    } else {
        match date_parsed(date_str, "%Y-%m-%d"@) {
            None => Err(line_prefix(n) + "invalid 'date' '"@ + date_str + "' — expected YYYY-MM-DD"@),
            Some((y, m, d)) => match parsed_amount(amount_str) {
                None => Err(line_prefix(n) + "invalid 'amount' '"@ + amount_str + "' — expected a decimal number"@),
                Some(a) => if a < 0 {
                    Err(line_prefix(n) + "'amount' must be non-negative, got "@ + amount_text(a as int))
                } else if kind == "debit"@ {
                    Ok((reference, a, EntryType::Debit, Date { year: y, month: m, day: d }, description))
                } else if kind == "credit"@ {
                    Ok((reference, a, EntryType::Credit, Date { year: y, month: m, day: d }, description))
                } else {
                    Err(line_prefix(n) + "invalid 'type' '"@ + kind + "' — expected 'debit' or 'credit'"@)
                },
            },
        }
    }
}

/// Errors and records of the first `k` data rows.  Row `i` is file line
/// `i + 2` (line 1 is the header).
pub open spec fn rows_outcome(rows: Seq<Result<Seq<Seq<char>>, Seq<char>>>, c: Columns, k: nat)
    -> (Seq<Seq<char>>, Seq<(Seq<char>, i64, EntryType, Date, Option<Seq<char>>)>)
    decreases k,
{
    if k == 0 || k > rows.len() {
        (Seq::empty(), Seq::empty())
    } else {
        let (errs, recs) = rows_outcome(rows, c, (k - 1) as nat);
        let n = (k + 1) as nat;
        match rows[k - 1] {
            Err(e) => (errs.push(line_prefix(n) + "CSV parse error — "@ + e), recs),
            Ok(row) => match row_result(row, c, n) {
                Ok(v) => (errs, recs.push(v)),
                Err(m) => (errs.push(m), recs),
            },
        }
    }
}

/// First position of `name` in `names`.
pub open spec fn position_in(names: Seq<Seq<char>>, name: Seq<char>) -> Option<int>
    decreases names.len(),
{
    if names.len() == 0 {
        None
    } else {
        match position_in(names.drop_last(), name) {
            Some(i) => Some(i),
            None => if names.last() == name { Some(names.len() - 1) } else { None },
        }
    }
}

/// `"Missing required column: '{name}'"` unless `name` is among `norm`.
pub open spec fn missing_column(norm: Seq<Seq<char>>, name: Seq<char>) -> Seq<Seq<char>> {
    if position_in(norm, name) is Some {
        Seq::empty()
    } else {
        seq!["Missing required column: '"@ + name + "'"@]
    }
}

/// The header errors, in the order `date`, `ref`, `amount`, `type`.
pub open spec fn header_errors(norm: Seq<Seq<char>>) -> Seq<Seq<char>> {
    missing_column(norm, "date"@) + missing_column(norm, "ref"@) + missing_column(norm, "amount"@)
        + missing_column(norm, "type"@)
}

/// The column positions named by the lower-cased headers (when all the
/// required ones are present).
pub open spec fn columns_of(norm: Seq<Seq<char>>) -> Columns {
    Columns {
        date: position_in(norm, "date"@).unwrap() as usize,
        reference: position_in(norm, "ref"@).unwrap() as usize,
        amount: position_in(norm, "amount"@).unwrap() as usize,
        kind: position_in(norm, "type"@).unwrap() as usize,
        description: match position_in(norm, "description"@) {
            Some(i) => Some(i as usize),
            None => None,
        },
    }
}

/// Errors and records of a CSV table: a header error stops everything; a
/// missing required column stops before the rows; otherwise every row is
/// checked.
pub open spec fn table_outcome(headers: Result<Seq<Seq<char>>, Seq<char>>, rows: Seq<Result<Seq<Seq<char>>, Seq<char>>>)
    -> (Seq<Seq<char>>, Seq<(Seq<char>, i64, EntryType, Date, Option<Seq<char>>)>)
{
    match headers {
        Err(e) => (seq!["Cannot read CSV headers: "@ + e], Seq::empty()),
        Ok(h) => {
            let norm = h.map_values(|x: Seq<char>| lowercased(x));
            if header_errors(norm).len() > 0 {
                (header_errors(norm), Seq::empty())
            } else {
                rows_outcome(rows, columns_of(norm), rows.len())
            }
        },
    }
}

/// Errors and records of a raw statement file.
pub open spec fn statement_outcome(content: Seq<u8>)
    -> (Seq<Seq<char>>, Seq<(Seq<char>, i64, EntryType, Date, Option<Seq<char>>)>)
{
    match utf8_decoded(content) {
        None => (seq!["File is not valid UTF-8"@], Seq::empty()),
        Some(_) => table_outcome(csv_headers(content, false, true), csv_records(content, false, true)),
    }
}

// ------------------------------------------------------------------
// Validation
// ------------------------------------------------------------------

/// Field `i` of `row`, trimmed.
fn field_of(row: &Vec<String>, i: usize) -> (r: Vec<char>)
    ensures
        r@ == field_text(fields_view(*row), i as int),
{
    if i < row.len() {
        let cs = chars_of(row[i].as_str());
        trim_chars(cs.as_slice())
    } else {
        Vec::new()
    }
}

/// `"Line {n}: "` for `n = idx + 2`.
fn line_prefix_exec(idx: usize) -> (r: Vec<char>)
    ensures
        r@ == line_prefix((idx + 2) as nat),
{
    let mut r: Vec<char> = Vec::new();
    push_str(&mut r, "Line ");
    let d = decimal_u128(idx as u128 + 2);
    push_chars(&mut r, d.as_slice());
    push_str(&mut r, ": ");
    proof {
        reveal_strlit("Line ");
        reveal_strlit(": ");
    }
    r
}

/// The record of data row `idx` (file line `idx + 2`), or the message that
/// rejects it.
pub fn parse_row(row: &Vec<String>, c: Columns, idx: usize) -> (r: Result<StatementRecord, String>)
    ensures
        match r {
            Ok(rec) => row_result(fields_view(*row), c, (idx + 2) as nat) == Ok::<_, Seq<char>>(record_view(rec)),
            Err(m) => row_result(fields_view(*row), c, (idx + 2) as nat) == Err::<(Seq<char>, i64, EntryType, Date, Option<Seq<char>>), _>(m@),
        },
{
    let ghost fv = fields_view(*row);
    let reference = field_of(row, c.reference);
    if reference.len() == 0 {
        let mut m = line_prefix_exec(idx);
        push_str(&mut m, "'ref' must not be empty");
        return Err(string_of(m.as_slice()));
    }
    let date_chars = field_of(row, c.date);
    let date_str = string_of(date_chars.as_slice());
    let date = match parse_date(date_str.as_str(), "%Y-%m-%d") {
        Some(d) => d,
        None => {
            let mut m = line_prefix_exec(idx);
            push_str(&mut m, "invalid 'date' '");
            push_chars(&mut m, date_chars.as_slice());
            push_str(&mut m, "' — expected YYYY-MM-DD");
            return Err(string_of(m.as_slice()));
        },
    };
    let raw_amount = field_of(row, c.amount);
    let amount_chars = remove_char(raw_amount.as_slice(), ',');
    let amount = match parse_amount(amount_chars.as_slice()) {
        Some(a) => a,
        None => {
            let mut m = line_prefix_exec(idx);
            push_str(&mut m, "invalid 'amount' '");
            push_chars(&mut m, amount_chars.as_slice());
            push_str(&mut m, "' — expected a decimal number");
            return Err(string_of(m.as_slice()));
        },
    };
    if amount < 0 {
        let mut m = line_prefix_exec(idx);
        push_str(&mut m, "'amount' must be non-negative, got ");
        let t = format_amount(amount);
        push_chars(&mut m, t.as_slice());
        return Err(string_of(m.as_slice()));
    }
    let kind_chars = field_of(row, c.kind);
    let kind_str = string_of(kind_chars.as_slice());
    let kind = to_lowercase(kind_str.as_str());
    let entry_type = if str_eq(kind.as_str(), "debit") {
        EntryType::Debit
    } else if str_eq(kind.as_str(), "credit") {
        EntryType::Credit
    } else {
        let mut m = line_prefix_exec(idx);
        push_str(&mut m, "invalid 'type' '");
        push_str(&mut m, kind.as_str());
        push_str(&mut m, "' — expected 'debit' or 'credit'");
        return Err(string_of(m.as_slice()));
    };
    let description = match c.description {
        Some(i) => {
            let d = field_of(row, i);
            if d.len() > 0 {
                Some(string_of(d.as_slice()))
            } else {
                None
            }
        },
        None => None,
    };
    let reference = string_of(reference.as_slice());
    Ok(StatementRecord { reference, amount, entry_type, date, description })
}


/// First position of `name` among `names`.
pub(crate) fn position_exec(names: &Vec<String>, name: &str) -> (r: Option<usize>)
    ensures
        match r {
            Some(i) => position_in(fields_view(*names), name@) == Some(i as int),
            None => position_in(fields_view(*names), name@) is None,
        },
{
    let ghost nv = fields_view(*names);
    let mut i: usize = 0;
    while i < names.len()
        invariant
            i <= names@.len(),
            nv == fields_view(*names),
            position_in(nv.take(i as int), name@) is None,
        decreases names.len() - i,
    {
        assert(nv.take(i + 1).drop_last() =~= nv.take(i as int));
        if str_eq(names[i].as_str(), name) {
            proof {
                lemma_position_prefix(nv, i as int + 1, name@);
            }
            return Some(i);
        }
        i = i + 1;
    }
    assert(nv.take(i as int) =~= nv);
    None
}

proof fn lemma_position_prefix(names: Seq<Seq<char>>, k: int, name: Seq<char>)
    requires
        0 <= k <= names.len(),
        position_in(names.take(k), name) is Some,
    ensures
        position_in(names, name) == position_in(names.take(k), name),
    decreases names.len() - k,
{
    if k < names.len() {
        assert(names.take(k + 1).drop_last() =~= names.take(k));
        lemma_position_prefix(names, k + 1, name);
    } else {
        assert(names.take(k) =~= names);
    }
}

/// Appends `"Missing required column: '{name}'"` unless `name` is present.
fn check_column(norm: &Vec<String>, name: &str, errors: &mut Vec<String>) -> (r: Option<usize>)
    ensures
        fields_view(*final(errors)) == fields_view(*old(errors)) + missing_column(fields_view(*norm), name@),
        match r {
            Some(i) => position_in(fields_view(*norm), name@) == Some(i as int),
            None => position_in(fields_view(*norm), name@) is None,
        },
{
    let p = position_exec(norm, name);
    if p.is_none() {
        let mut m: Vec<char> = Vec::new();
        push_str(&mut m, "Missing required column: '");
        push_str(&mut m, name);
        push_str(&mut m, "'");
        let ghost before = fields_view(*errors);
        errors.push(string_of(m.as_slice()));
        assert(fields_view(*errors) =~= before.push(m@));
    } else {
        assert(fields_view(*errors) =~= fields_view(*old(errors)) + Seq::<Seq<char>>::empty());
    }
    p
}

/// Errors and records of a CSV table that the outside reader produced:
/// `headers` is its header row (or error text), `rows` its data rows.
pub fn parse_table(headers: Result<Vec<String>, String>, rows: Vec<Result<Vec<String>, String>>)
    -> (r: (Vec<String>, Vec<StatementRecord>))
    ensures
        (fields_view(r.0), r.1@.map_values(|x: StatementRecord| record_view(x)))
            == table_outcome(row_view(headers), rows_view(rows)),
{
    let ghost rv = rows_view(rows);
    let mut errors: Vec<String> = Vec::new();
    let mut records: Vec<StatementRecord> = Vec::new();
    let h = match headers {
        Ok(h) => h,
        Err(e) => {
            let mut m: Vec<char> = Vec::new();
            push_str(&mut m, "Cannot read CSV headers: ");
            push_str(&mut m, e.as_str());
            errors.push(string_of(m.as_slice()));
            assert(fields_view(errors) =~= seq![m@]);
            assert(records@.map_values(|x: StatementRecord| record_view(x)) =~= Seq::empty());
            return (errors, records);
        },
    };
    let mut norm: Vec<String> = Vec::new();
    let mut k: usize = 0;
    while k < h.len()
        invariant
            k <= h@.len(),
            fields_view(norm) == fields_view(h).take(k as int).map_values(|x: Seq<char>| lowercased(x)),
        decreases h.len() - k,
    {
        let l = to_lowercase(h[k].as_str());
        let ghost before = fields_view(norm);
        norm.push(l);
        assert(fields_view(norm) =~= before.push(l@));
        assert(fields_view(h).take(k + 1).map_values(|x: Seq<char>| lowercased(x))
            =~= fields_view(h).take(k as int).map_values(|x: Seq<char>| lowercased(x)).push(lowercased(h@[k as int]@)));
        k = k + 1;
    }
    assert(fields_view(h).take(k as int) =~= fields_view(h));
    let ghost nv = fields_view(norm);
    assert(nv == fields_view(h).map_values(|x: Seq<char>| lowercased(x)));
    let date_col = check_column(&norm, "date", &mut errors);
    let ref_col = check_column(&norm, "ref", &mut errors);
    let amount_col = check_column(&norm, "amount", &mut errors);
    let type_col = check_column(&norm, "type", &mut errors);
    assert(fields_view(errors) =~= header_errors(nv));
    if errors.len() > 0 {
        assert(records@.map_values(|x: StatementRecord| record_view(x)) =~= Seq::empty());
        return (errors, records);
    }
    let desc_col = position_exec(&norm, "description");
    let c = Columns {
        date: date_col.unwrap(),
        reference: ref_col.unwrap(),
        amount: amount_col.unwrap(),
        kind: type_col.unwrap(),
        description: desc_col,
    };
    assert(c == columns_of(nv));
    let mut i: usize = 0;
    while i < rows.len()
        invariant
            i <= rows@.len(),
            rv == rows_view(rows),
            c == columns_of(nv),
            (fields_view(errors), records@.map_values(|x: StatementRecord| record_view(x))) == rows_outcome(rv, c, i as nat),
        decreases rows.len() - i,
    {
        let ghost e0 = fields_view(errors);
        let ghost r0 = records@.map_values(|x: StatementRecord| record_view(x));
        match &rows[i] {
            Err(e) => {
                let mut m = line_prefix_exec(i);
                push_str(&mut m, "CSV parse error — ");
                push_str(&mut m, e.as_str());
                errors.push(string_of(m.as_slice()));
                assert(fields_view(errors) =~= e0.push(m@));
                assert(records@.map_values(|x: StatementRecord| record_view(x)) =~= r0);
            },
            Ok(row) => match parse_row(row, c, i) {
                Ok(rec) => {
                    records.push(rec);
                    assert(fields_view(errors) =~= e0);
                    assert(records@.map_values(|x: StatementRecord| record_view(x)) =~= r0.push(record_view(rec)));
                },
                Err(m) => {
                    errors.push(m);
                    assert(fields_view(errors) =~= e0.push(m@));
                    assert(records@.map_values(|x: StatementRecord| record_view(x)) =~= r0);
                },
            },
        }
        i = i + 1;
    }
    (errors, records)
}

/// Validate a raw statement file and parse its records.  A result is returned
/// even when errors exist: `is_valid` holds iff none was recorded, and the
/// records that passed are kept.
pub fn validate_and_parse(content: &[u8]) -> (r: ParseResult)
    ensures
        fields_view(r.errors) == statement_outcome(content@).0,
        r.records@.map_values(|x: StatementRecord| record_view(x)) == statement_outcome(content@).1,
        r.is_valid == (statement_outcome(content@).0.len() == 0),
        r.fingerprint@ == hex_lower(sha256_of(content@)),
{
    let fp = fingerprint(content);
    match utf8_decode(content) {
        None => {
            let mut errors: Vec<String> = Vec::new();
            errors.push(string_of(chars_of("File is not valid UTF-8").as_slice()));
            let records: Vec<StatementRecord> = Vec::new();
            assert(fields_view(errors) =~= seq!["File is not valid UTF-8"@]);
            assert(records@.map_values(|x: StatementRecord| record_view(x)) =~= Seq::empty());
            ParseResult { is_valid: false, errors, records, fingerprint: fp }
        },
        Some(_) => {
            let headers = csv_header_row(content, false, true);
            let rows = csv_data_rows(content, false, true);
            let (errors, records) = parse_table(headers, rows);
            let is_valid = errors.len() == 0;
            ParseResult { is_valid, errors, records, fingerprint: fp }
        },
    }
}

proof fn lemma_position_in(names: Seq<Seq<char>>, name: Seq<char>)
    ensures
        match position_in(names, name) {
            Some(i) => 0 <= i < names.len() && names[i] == name,
            None => forall|j: int| 0 <= j < names.len() ==> names[j] != name,
        },
    decreases names.len(),
{
    if names.len() > 0 {
        lemma_position_in(names.drop_last(), name);
        assert forall|j: int| 0 <= j < names.len() - 1 implies names.drop_last()[j] == names[j] by {}
    }
}

/// `name` sits at position `inv[i]` of the permuted names when it sits at
/// `i` of the original ones.
proof fn lemma_position_permuted(n1: Seq<Seq<char>>, n2: Seq<Seq<char>>, perm: Seq<int>, inv: Seq<int>, name: Seq<char>)
    requires
        n2.len() == n1.len(),
        perm.len() == n1.len(),
        inv.len() == n1.len(),
        forall|j: int| 0 <= j < n1.len() ==> 0 <= #[trigger] perm[j] < n1.len() && inv[perm[j]] == j,
        forall|i: int| 0 <= i < n1.len() ==> 0 <= #[trigger] inv[i] < n1.len() && perm[inv[i]] == i,
        forall|j: int| 0 <= j < n2.len() ==> #[trigger] n2[j] == n1[perm[j]],
        forall|a: int, b: int| 0 <= a < n1.len() && 0 <= b < n1.len() && a != b ==> n1[a] != n1[b],
    ensures
        match position_in(n1, name) {
            Some(i) => position_in(n2, name) == Some(inv[i]),
            None => position_in(n2, name) is None,
        },
{
    lemma_position_in(n1, name);
    lemma_position_in(n2, name);
    match position_in(n1, name) {
        Some(i) => {
            assert(n2[inv[i]] == name);
            let j = position_in(n2, name).unwrap();
            assert(n1[perm[j]] == name);
            assert(perm[j] == i);
            assert(inv[perm[j]] == j);
        },
        None => {
            if position_in(n2, name) is Some {
                let j = position_in(n2, name).unwrap();
                assert(n1[perm[j]] == name);
            }
        },
    }
}

/// The rows `rows2` are the rows `rows1` with their fields permuted by
/// `perm`: failed rows alike, read rows of `n` fields each.
pub open spec fn rows_permuted(
    rows1: Seq<Result<Seq<Seq<char>>, Seq<char>>>,
    rows2: Seq<Result<Seq<Seq<char>>, Seq<char>>>,
    perm: Seq<int>,
    n: int,
) -> bool {
    &&& rows2.len() == rows1.len()
    &&& forall|k: int| 0 <= k < rows1.len() ==> match (#[trigger] rows1[k], rows2[k]) {
        (Err(a), Err(b)) => a == b,
        (Ok(r1), Ok(r2)) => r1.len() == n && r2.len() == n && forall|j: int| 0 <= j < n ==> #[trigger] r2[j] == r1[perm[j]],
        _ => false,
    }
}

/// Reordering the columns of a statement, and changing its header names in
/// ways that keep their lower-case form (such as their letter case), leaves
/// its errors and records unchanged: the same permutation `perm` (with
/// inverse `inv`) applied to the header row and to every data row.  Header
/// names must not repeat once lower-cased, since the first of a repeated
/// name is the one read.
pub proof fn law_column_order_and_header_case(
    h1: Seq<Seq<char>>,
    h2: Seq<Seq<char>>,
    rows1: Seq<Result<Seq<Seq<char>>, Seq<char>>>,
    rows2: Seq<Result<Seq<Seq<char>>, Seq<char>>>,
    perm: Seq<int>,
    inv: Seq<int>,
)
    requires
        h1.len() <= usize::MAX,
        h2.len() == h1.len(),
        perm.len() == h1.len(),
        inv.len() == h1.len(),
        forall|j: int| 0 <= j < h1.len() ==> 0 <= #[trigger] perm[j] < h1.len() && inv[perm[j]] == j,
        forall|i: int| 0 <= i < h1.len() ==> 0 <= #[trigger] inv[i] < h1.len() && perm[inv[i]] == i,
        forall|j: int| 0 <= j < h2.len() ==> lowercased(#[trigger] h2[j]) == lowercased(h1[perm[j]]),
        forall|a: int, b: int| 0 <= a < h1.len() && 0 <= b < h1.len() && a != b
            ==> lowercased(#[trigger] h1[a]) != lowercased(#[trigger] h1[b]),
        rows_permuted(rows1, rows2, perm, h1.len() as int),
    ensures
        table_outcome(Ok(h1), rows1) == table_outcome(Ok(h2), rows2),
{
    let n1 = h1.map_values(|x: Seq<char>| lowercased(x));
    let n2 = h2.map_values(|x: Seq<char>| lowercased(x));
    assert forall|j: int| 0 <= j < n2.len() implies #[trigger] n2[j] == n1[perm[j]] by {
        assert(lowercased(h2[j]) == lowercased(h1[perm[j]]));
    }
    assert forall|a: int, b: int| 0 <= a < n1.len() && 0 <= b < n1.len() && a != b implies n1[a] != n1[b] by {
        assert(lowercased(h1[a]) != lowercased(h1[b]));
    }
    lemma_position_permuted(n1, n2, perm, inv, "date"@);
    lemma_position_permuted(n1, n2, perm, inv, "ref"@);
    lemma_position_permuted(n1, n2, perm, inv, "amount"@);
    lemma_position_permuted(n1, n2, perm, inv, "type"@);
    lemma_position_permuted(n1, n2, perm, inv, "description"@);
    lemma_position_in(n1, "date"@);
    lemma_position_in(n1, "ref"@);
    lemma_position_in(n1, "amount"@);
    lemma_position_in(n1, "type"@);
    lemma_position_in(n1, "description"@);
    assert(header_errors(n1) == header_errors(n2));
    if header_errors(n1).len() == 0 {
        let c1 = columns_of(n1);
        let c2 = columns_of(n2);
        assert forall|k: int| 0 <= k < rows1.len() implies
            (match (#[trigger] rows1[k], rows2[k]) {
                (Ok(r1), Ok(r2)) => row_result(r1, c1, (k + 2) as nat) == row_result(r2, c2, (k + 2) as nat),
                _ => true,
            }) by {
            match (rows1[k], rows2[k]) {
                (Ok(r1), Ok(r2)) => {
                    assert(field_text(r2, c2.date as int) == field_text(r1, c1.date as int));
                    assert(field_text(r2, c2.reference as int) == field_text(r1, c1.reference as int));
                    assert(field_text(r2, c2.amount as int) == field_text(r1, c1.amount as int));
                    assert(field_text(r2, c2.kind as int) == field_text(r1, c1.kind as int));
                    match c1.description {
                        Some(d) => {
                            assert(field_text(r2, c2.description.unwrap() as int) == field_text(r1, d as int));
                        },
                        None => {},
                    }
                },
                _ => {},
            }
        }
        lemma_rows_outcome_permuted(rows1, rows2, c1, c2, h1.len() as int, perm, rows1.len());
    }
}

proof fn lemma_rows_outcome_permuted(
    rows1: Seq<Result<Seq<Seq<char>>, Seq<char>>>,
    rows2: Seq<Result<Seq<Seq<char>>, Seq<char>>>,
    c1: Columns,
    c2: Columns,
    n: int,
    perm: Seq<int>,
    k: nat,
)
    requires
        rows_permuted(rows1, rows2, perm, n),
        k <= rows1.len(),
        forall|m: int| 0 <= m < rows1.len() ==>
            (match (#[trigger] rows1[m], rows2[m]) {
                (Ok(r1), Ok(r2)) => row_result(r1, c1, (m + 2) as nat) == row_result(r2, c2, (m + 2) as nat),
                _ => true,
            }),
    ensures
        rows_outcome(rows1, c1, k) == rows_outcome(rows2, c2, k),
    decreases k,
{
    if k > 0 {
        lemma_rows_outcome_permuted(rows1, rows2, c1, c2, n, perm, (k - 1) as nat);
        let m = k - 1;
        match (rows1[m], rows2[m]) {
            (Ok(r1), Ok(r2)) => {
                assert(row_result(r1, c1, (m + 2) as nat) == row_result(r2, c2, (m + 2) as nat));
            },
            _ => {},
        }
    }
}

} // verus!
