//! CSV tables read by the `csv` crate, as plain values.
use vstd::prelude::*;

verus! {

/// The header fields that a `csv` reader (headers expected; `flexible`:
/// rows may differ in length; `trim`: Unicode white space trimmed from every
/// field) yields for `data`, or its error text.
pub uninterp spec fn csv_headers(data: Seq<u8>, flexible: bool, trim: bool) -> Result<Seq<Seq<char>>, Seq<char>>;

/// The data rows that the same reader yields for `data`: each the row's
/// fields, or the error text of a row it could not read.
pub uninterp spec fn csv_records(data: Seq<u8>, flexible: bool, trim: bool) -> Seq<Result<Seq<Seq<char>>, Seq<char>>>;

/// The characters of each field.
pub open spec fn fields_view(v: Vec<String>) -> Seq<Seq<char>> {
    v@.map_values(|s: String| s@)
}

/// The plain value of one reader result.
pub open spec fn row_view(r: Result<Vec<String>, String>) -> Result<Seq<Seq<char>>, Seq<char>> {
    match r {
        Ok(v) => Ok(fields_view(v)),
        Err(e) => Err(e@),
    }
}

/// The plain values of all reader results.
pub open spec fn rows_view(rows: Vec<Result<Vec<String>, String>>) -> Seq<Result<Seq<Seq<char>>, Seq<char>>> {
    rows@.map_values(|x: Result<Vec<String>, String>| row_view(x))
}

/// `csv::Reader::headers` on a reader built with the given options.  Claims
/// only that the result is the named header row of `data`.
#[verifier::external_body]
pub(crate) fn csv_header_row(data: &[u8], flexible: bool, trim: bool) -> (r: Result<Vec<String>, String>)
    ensures
        row_view(r) == csv_headers(data@, flexible, trim),
{
    let mut reader = csv::ReaderBuilder::new().has_headers(true).flexible(flexible)
        .trim(if trim { csv::Trim::All } else { csv::Trim::None }).from_reader(data);
    match reader.headers() {
        Ok(h) => Ok(h.iter().map(|f| f.to_string()).collect()),
        Err(e) => Err(e.to_string()),
    }
}

/// `csv::Reader::records` on a reader built with the given options.  Claims
/// only that the result is the named list of data rows of `data`.
#[verifier::external_body]
pub(crate) fn csv_data_rows(data: &[u8], flexible: bool, trim: bool) -> (r: Vec<Result<Vec<String>, String>>)
    ensures
        rows_view(r) == csv_records(data@, flexible, trim),
{
    let mut reader = csv::ReaderBuilder::new().has_headers(true).flexible(flexible)
        .trim(if trim { csv::Trim::All } else { csv::Trim::None }).from_reader(data);
    reader.records().map(|r| r.map(|rec| rec.iter().map(|f| f.to_string()).collect()).map_err(|e| e.to_string())).collect()
}

} // verus!
