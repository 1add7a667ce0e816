//! Calendar dates and times of day.
use vstd::prelude::*;

use chrono::Datelike;

verus! {

/// The earliest Unix time, in microseconds, that `chrono::DateTime<Utc>` can
/// represent: the start of year -262143.
pub const EARLIEST_DATETIME_MICROS: i64 = -8_334_601_315_200_000_000;

/// The latest Unix time, in microseconds, that `chrono::DateTime<Utc>` can
/// represent: the last microsecond of year 262142.
pub const LATEST_DATETIME_MICROS: i64 = 8_210_266_876_799_999_999;

/// A calendar date (proleptic Gregorian), as `chrono::NaiveDate` holds it.
#[derive(Debug, Clone, Copy, PartialEq, Eq, Structural)]
pub struct Date {
    pub year: i32,
    pub month: u32,
    pub day: u32,
}

/// The date that `NaiveDate::parse_from_str(text, format)` yields, as
/// `(year, month, day)`, or `None` when the text does not match the format
/// or names no real date.
pub uninterp spec fn date_parsed(text: Seq<char>, format: Seq<char>) -> Option<(i32, u32, u32)>;

/// `chrono::NaiveDate::parse_from_str`.  Claims only that the result is the
/// named parse of the text under the format.
#[verifier::external_body]
pub(crate) fn parse_date(text: &str, format: &str) -> (r: Option<Date>)
    ensures
        match date_parsed(text@, format@) {
            Some((y, m, d)) => r == Some(Date { year: y, month: m, day: d }),
            None => r is None,
        },
{
    chrono::NaiveDate::parse_from_str(text, format)
        .ok()
        .map(|d| Date { year: d.year(), month: d.month(), day: d.day() })
}

} // verus!
