//! Payment-result file import: CSV and JSON line parsing and the bookkeeping
//! of an import run.
//!
//! CSV files carry a header row with `ref`, `amount`, `date` and optionally
//! `description` (any case); `amount` and `date` are required.  Rows whose
//! amount or date cannot be read are skipped.
use vstd::prelude::*;

use crate::date::{date_parsed, parse_date, Date};
use crate::money::{parse_amount, parsed_amount};
use crate::reconciliation::importer::{field_text, position_exec, position_in};
use crate::table::{csv_data_rows, csv_header_row, csv_headers, csv_records, fields_view, row_view, rows_view};
use crate::text::{
    chars_of, decimal, decimal_u128, lowercased, push_chars, push_str, remove_char, str_eq, string_of,
    to_lowercase, trim_chars, trimmed, without_char,
};

verus! {

broadcast use {vstd::string::group_string_axioms, vstd::slice::group_slice_axioms};

/// One parsed line of a payment-result file.  `amount` is in micros.
#[derive(Debug, Clone)]
pub struct ImportLine {
    pub transaction_ref: Option<String>,
    pub amount: i64,
    pub transaction_date: Date,
    pub description: Option<String>,
}

/// A line as plain values.
pub open spec fn import_line_view(l: ImportLine) -> (Option<Seq<char>>, i64, Date, Option<Seq<char>>) {
    (
        match l.transaction_ref { Some(r) => Some(r@), None => None },
        l.amount,
        l.transaction_date,
        match l.description { Some(d) => Some(d@), None => None },
    )
}

/// The date a text denotes in the first of the given formats that reads it.
pub open spec fn date_in_formats(text: Seq<char>, formats: Seq<Seq<char>>) -> Option<Date>
    decreases formats.len(),
{
    if formats.len() == 0 {
        None
    } else {
        match date_parsed(text, formats[0]) {
            Some((y, m, d)) => Some(Date { year: y, month: m, day: d }),
            None => date_in_formats(text, formats.drop_first()),
        }
    }
}

/// Date formats accepted in CSV files, in the order they are tried.
pub open spec fn csv_date_formats() -> Seq<Seq<char>> {
    seq!["%Y-%m-%d"@, "%d/%m/%Y"@, "%m/%d/%Y"@]
}

/// Date formats accepted in JSON files, in the order they are tried.
pub open spec fn json_date_formats() -> Seq<Seq<char>> {
    seq!["%Y-%m-%d"@, "%d/%m/%Y"@]
}

/// An optional column's trimmed text, absent when empty.
pub open spec fn optional_field(row: Seq<Seq<char>>, col: Option<usize>) -> Option<Seq<char>> {
    match col {
        Some(i) => if field_text(row, i as int).len() > 0 { Some(field_text(row, i as int)) } else { None },
        None => None,
    }
}

/// Column positions of a payment-result CSV.
#[derive(Debug, Clone, Copy, PartialEq, Eq, Structural)]
pub struct ImportColumns {
    pub reference: Option<usize>,
    pub amount: usize,
    pub date: usize,
    pub description: Option<usize>,
}

/// The line of one CSV row, or `None` when the row is skipped.
pub open spec fn csv_row_line(row: Seq<Seq<char>>, c: ImportColumns) -> Option<(Option<Seq<char>>, i64, Date, Option<Seq<char>>)> {
    match parsed_amount(without_char(field_text(row, c.amount as int), ',')) {
        None => None,
        Some(a) => match date_in_formats(field_text(row, c.date as int), csv_date_formats()) {
            None => None,
            Some(d) => Some((optional_field(row, c.reference), a, d, optional_field(row, c.description))),
        },
    }
}

/// The lines of the first `k` CSV rows; unreadable rows are skipped.
pub open spec fn csv_lines(rows: Seq<Result<Seq<Seq<char>>, Seq<char>>>, c: ImportColumns, k: nat)
    -> Seq<(Option<Seq<char>>, i64, Date, Option<Seq<char>>)>
    decreases k,
{
    if k == 0 || k > rows.len() {
        Seq::empty()
    } else {
        let prev = csv_lines(rows, c, (k - 1) as nat);
        match rows[k - 1] {
            Ok(row) => match csv_row_line(row, c) {
                Some(l) => prev.push(l),
                None => prev,
            },
            Err(_) => prev,
        }
    }
}

/// The outcome of reading a payment-result CSV: the header error text, a
/// missing-column message (`amount` is checked before `date`), or the lines.
pub open spec fn csv_import_outcome(headers: Result<Seq<Seq<char>>, Seq<char>>, rows: Seq<Result<Seq<Seq<char>>, Seq<char>>>)
    -> Result<Seq<(Option<Seq<char>>, i64, Date, Option<Seq<char>>)>, Seq<char>>
{
    match headers {
        Err(e) => Err(e),
        Ok(h) => {
            let norm = h.map_values(|x: Seq<char>| lowercased(x));
            match position_in(norm, "amount"@) {
                None => Err("CSV missing 'amount' column"@),
                Some(a) => match position_in(norm, "date"@) {
                    None => Err("CSV missing 'date' column"@),
                    Some(d) => Ok(csv_lines(rows, ImportColumns {
                        reference: match position_in(norm, "ref"@) { Some(i) => Some(i as usize), None => None },
                        amount: a as usize,
                        date: d as usize,
                        description: match position_in(norm, "description"@) { Some(i) => Some(i as usize), None => None },
                    }, rows.len())),
                },
            }
        },
    }
}

/// The view of an optional text.
pub open spec fn opt_view(o: Option<String>) -> Option<Seq<char>> {
    match o {
        Some(s) => Some(s@),
        None => None,
    }
}

/// The date `text` denotes in the first of `formats` that reads it.
fn parse_date_formats(text: &str, csv: bool) -> (r: Option<Date>)
    ensures
        r == date_in_formats(text@, if csv { csv_date_formats() } else { json_date_formats() }),
{
    let ghost f = if csv { csv_date_formats() } else { json_date_formats() };
    proof {
        reveal_with_fuel(date_in_formats, 4);
        assert(f.drop_first()[0] == "%d/%m/%Y"@);
        assert(f.drop_first().drop_first().len() == if csv { 1int } else { 0int });
        if csv {
            assert(f.drop_first().drop_first()[0] == "%m/%d/%Y"@);
            assert(f.drop_first().drop_first().drop_first().len() == 0);
        }
    }
    match parse_date(text, "%Y-%m-%d") {
        Some(d) => return Some(d),
        None => {},
    }
    match parse_date(text, "%d/%m/%Y") {
        Some(d) => return Some(d),
        None => {},
    }
    if csv {
        parse_date(text, "%m/%d/%Y")
    } else {
        None
    }
}

/// Trimmed field `i` of `row`, empty when absent.
fn field_of(row: &Vec<String>, i: usize) -> (r: Vec<char>)
    ensures
        r@ == field_text(fields_view(*row), i as int),
{
    if i < row.len() {
        let cs = chars_of(row[i].as_str());
        trim_chars(cs.as_slice())
    } else {
        Vec::new()
    }
}

/// An optional column's trimmed text, absent when empty.
fn optional_field_of(row: &Vec<String>, col: Option<usize>) -> (r: Option<String>)
    ensures
        opt_view(r) == optional_field(fields_view(*row), col),
{
    match col {
        Some(i) => {
            let f = field_of(row, i);
            if f.len() > 0 { Some(string_of(f.as_slice())) } else { None }
        },
        None => None,
    }
}

/// The line of one CSV row, or `None` when its amount or date is unreadable.
pub fn parse_csv_row(row: &Vec<String>, c: ImportColumns) -> (r: Option<ImportLine>)
    ensures
        match r {
            Some(l) => csv_row_line(fields_view(*row), c) == Some(import_line_view(l)),
            None => csv_row_line(fields_view(*row), c) is None,
        },
{
    let raw = field_of(row, c.amount);
    let cleaned = remove_char(raw.as_slice(), ',');
    let amount = match parse_amount(cleaned.as_slice()) {
        Some(a) => a,
        None => return None,
    };
    let date_chars = field_of(row, c.date);
    let date_text = string_of(date_chars.as_slice());
    let date = match parse_date_formats(date_text.as_str(), true) {
        Some(d) => d,
        None => return None,
    };
    let transaction_ref = optional_field_of(row, c.reference);
    let description = optional_field_of(row, c.description);
    Some(ImportLine { transaction_ref, amount, transaction_date: date, description })
}

/// The lines of a payment-result CSV table that the outside reader produced.
pub fn parse_csv_table(headers: Result<Vec<String>, String>, rows: Vec<Result<Vec<String>, String>>)
    -> (r: Result<Vec<ImportLine>, String>)
    ensures
        match r {
            Ok(v) => csv_import_outcome(row_view(headers), rows_view(rows)) == Ok::<_, Seq<char>>(
                v@.map_values(|l: ImportLine| import_line_view(l))),
            Err(e) => csv_import_outcome(row_view(headers), rows_view(rows)) == Err::<
                Seq<(Option<Seq<char>>, i64, Date, Option<Seq<char>>)>, _>(e@),
        },
{
    let ghost rv = rows_view(rows);
    let h = match headers {
        Ok(h) => h,
        Err(e) => return Err(e),
    };
    let mut norm: Vec<String> = Vec::new();
    let mut k: usize = 0;
    while k < h.len()
        invariant
            k <= h@.len(),
            fields_view(norm) == fields_view(h).take(k as int).map_values(|x: Seq<char>| lowercased(x)),
        decreases h.len() - k,
    {
        let l = to_lowercase(h[k].as_str());
        let ghost before = fields_view(norm);
        norm.push(l);
        assert(fields_view(norm) =~= before.push(l@));
        assert(fields_view(h).take(k + 1).map_values(|x: Seq<char>| lowercased(x))
            =~= fields_view(h).take(k as int).map_values(|x: Seq<char>| lowercased(x)).push(lowercased(h@[k as int]@)));
        k = k + 1;
    }
    assert(fields_view(h).take(k as int) =~= fields_view(h));
    let amount = match position_exec(&norm, "amount") {
        Some(a) => a,
        None => return Err(string_of(chars_of("CSV missing 'amount' column").as_slice())),
    };
    let date = match position_exec(&norm, "date") {
        Some(d) => d,
        None => return Err(string_of(chars_of("CSV missing 'date' column").as_slice())),
    };
    let c = ImportColumns {
        reference: position_exec(&norm, "ref"),
        amount,
        date,
        description: position_exec(&norm, "description"),
    };
    let mut lines: Vec<ImportLine> = Vec::new();
    let mut i: usize = 0;
    while i < rows.len()
        invariant
            i <= rows@.len(),
            rv == rows_view(rows),
            lines@.map_values(|l: ImportLine| import_line_view(l)) == csv_lines(rv, c, i as nat),
        decreases rows.len() - i,
    {
        let ghost before = lines@.map_values(|l: ImportLine| import_line_view(l));
        match &rows[i] {
            Ok(row) => match parse_csv_row(row, c) {
                Some(l) => {
                    lines.push(l);
                    assert(lines@.map_values(|l: ImportLine| import_line_view(l)) =~= before.push(import_line_view(l)));
                },
                None => {},
            },
            Err(_) => {},
        }
        i = i + 1;
    }
    Ok(lines)
}

/// Parse a payment-result CSV file.
pub fn parse_csv(content: &[u8]) -> (r: Result<Vec<ImportLine>, String>)
    ensures
        match r {
            Ok(v) => csv_import_outcome(csv_headers(content@, true, false), csv_records(content@, true, false))
                == Ok::<_, Seq<char>>(v@.map_values(|l: ImportLine| import_line_view(l))),
            Err(e) => csv_import_outcome(csv_headers(content@, true, false), csv_records(content@, true, false))
                == Err::<Seq<(Option<Seq<char>>, i64, Date, Option<Seq<char>>)>, _>(e@),
        },
{
    let headers = csv_header_row(content, true, false);
    let rows = csv_data_rows(content, true, false);
    parse_csv_table(headers, rows)
}

/// One entry of a payment-result JSON file, as read by the JSON decoder.
/// `amount` is in micros.
#[derive(Debug, Clone)]
pub struct JsonImportEntry {
    pub transaction_ref: Option<String>,
    pub amount: i64,
    pub date: String,
    pub description: Option<String>,
}

/// The lines of decoded JSON entries, or the message for the first entry
/// whose date is unreadable (`row {i+1}: invalid date '{date}'`).
pub open spec fn json_lines(entries: Seq<JsonImportEntry>, k: nat)
    -> Result<Seq<(Option<Seq<char>>, i64, Date, Option<Seq<char>>)>, Seq<char>>
    decreases k,
{
    if k == 0 || k > entries.len() {
        Ok(Seq::empty())
    } else {
        match json_lines(entries, (k - 1) as nat) {
            Err(e) => Err(e),
            Ok(prev) => {
                let e = entries[k - 1];
                match date_in_formats(e.date@, json_date_formats()) {
                    None => Err("row "@ + decimal(k) + ": invalid date '"@ + e.date@ + "'"@),
                    Some(d) => Ok(prev.push((opt_view(e.transaction_ref), e.amount, d, opt_view(e.description)))),
                }
            },
        }
    }
}

/// Turn decoded JSON entries into lines.
pub fn parse_json_entries(entries: Vec<JsonImportEntry>) -> (r: Result<Vec<ImportLine>, String>)
    ensures
        match r {
            Ok(v) => json_lines(entries@, entries@.len()) == Ok::<_, Seq<char>>(v@.map_values(|l: ImportLine| import_line_view(l))),
            Err(e) => json_lines(entries@, entries@.len()) == Err::<Seq<(Option<Seq<char>>, i64, Date, Option<Seq<char>>)>, _>(e@),
        },
{
    let mut lines: Vec<ImportLine> = Vec::new();
    let mut i: usize = 0;
    assert(lines@.map_values(|l: ImportLine| import_line_view(l)) =~= Seq::empty());
    while i < entries.len()
        invariant
            i <= entries@.len(),
            json_lines(entries@, i as nat) == Ok::<_, Seq<char>>(lines@.map_values(|l: ImportLine| import_line_view(l))),
        decreases entries.len() - i,
    {
        let e = &entries[i];
        let ghost before = lines@.map_values(|l: ImportLine| import_line_view(l));
        match parse_date_formats(e.date.as_str(), false) {
            None => {
                let mut m: Vec<char> = Vec::new();
                push_str(&mut m, "row ");
                let n = decimal_u128(i as u128 + 1);
                push_chars(&mut m, n.as_slice());
                push_str(&mut m, ": invalid date '");
                push_str(&mut m, e.date.as_str());
                push_str(&mut m, "'");
                proof {
                    lemma_json_lines_err_stays(entries@, (i + 1) as nat, entries@.len());
                }
                return Err(string_of(m.as_slice()));
            },
            Some(d) => {
                let l = ImportLine {
                    transaction_ref: e.transaction_ref.clone(),
                    amount: e.amount,
                    transaction_date: d,
                    description: e.description.clone(),
                };
                lines.push(l);
                assert(lines@.map_values(|l: ImportLine| import_line_view(l)) =~= before.push(import_line_view(l)));
            },
        }
        i = i + 1;
    }
    Ok(lines)
}

proof fn lemma_json_lines_err_stays(entries: Seq<JsonImportEntry>, k: nat, n: nat)
    requires
        1 <= k <= n <= entries.len(),
        json_lines(entries, k) is Err,
    ensures
        json_lines(entries, n) == json_lines(entries, k),
    decreases n - k,
{
    if k < n {
        lemma_json_lines_err_stays(entries, k, (n - 1) as nat);
    }
}

/// `json` for a file name ending in `.json`, otherwise `csv`.
pub fn import_format_for(filename: &str) -> (r: &'static str)
    ensures
        r@ == (if crate::text::is_suffix(".json"@, filename@) { "json"@ } else { "csv"@ }),
{
    let f = chars_of(filename);
    let suffix = chars_of(".json");
    if crate::text::ends_with(f.as_slice(), suffix.as_slice()) {
        "json"
    } else {
        "csv"
    }
}

/// The `match_status` of an import line.
pub fn line_match_status(matched: bool) -> (r: &'static str)
    ensures
        r@ == (if matched { "matched"@ } else { "unmatched"@ }),
{
    if matched { "matched" } else { "unmatched" }
}

/// Status and processed count of a finished import: `completed` when no line
/// failed to store, otherwise `failed`.
pub fn import_completion(total: i32, errors: i32) -> (r: (&'static str, i32))
    requires
        0 <= errors <= total,
    ensures
        r.0@ == (if errors == 0 { "completed"@ } else { "failed"@ }),
        r.1 == total - errors,
{
    (if errors == 0 { "completed" } else { "failed" }, total - errors)
}

} // verus!
