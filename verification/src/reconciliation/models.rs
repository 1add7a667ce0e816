//! Reconciliation data types.
use vstd::prelude::*;

use crate::date::Date;

verus! {

/// Direction of a statement entry.
#[derive(Debug, Clone, Copy, PartialEq, Eq, Structural)]
pub enum EntryType {
    Debit,
    Credit,
}

impl EntryType {
    pub fn as_str(self) -> (r: &'static str)
        ensures
            r@ == (match self {
                EntryType::Debit => "debit"@,
                EntryType::Credit => "credit"@,
            }),
    {
        match self {
            EntryType::Debit => "debit",
            EntryType::Credit => "credit",
        }
    }
}

/// One row of a bank/provider statement.  `amount` is in micros and never
/// negative.
#[derive(Debug, Clone)]
pub struct StatementRecord {
    pub reference: String,
    pub amount: i64,
    pub entry_type: EntryType,
    pub date: Date,
    pub description: Option<String>,
}

/// Outcome of statement validation: `is_valid` iff no error was recorded;
/// records parsed before or between errors are kept for diagnostics.
#[derive(Debug)]
pub struct ParseResult {
    pub is_valid: bool,
    pub errors: Vec<String>,
    pub records: Vec<StatementRecord>,
    /// SHA-256 of the raw file content, lower-case hex.
    pub fingerprint: String,
}

/// Classification of one reconciliation item.
#[derive(Debug, Clone, Copy, PartialEq, Eq, Structural)]
pub enum DiscrepancyType {
    /// Statement and transaction agree on existence and amount.
    Matched,
    /// Both present, amounts differ by more than the tolerance.
    AmountMismatch,
    /// Transaction with no statement entry.
    MissingFromStatement,
    /// Statement entry with no transaction.
    ExtraInStatement,
    /// Statement entry whose reference occurs more than once.
    Duplicate,
}

pub open spec fn discrepancy_name(d: DiscrepancyType) -> Seq<char> {
    match d {
        DiscrepancyType::Matched => "matched"@,
        DiscrepancyType::AmountMismatch => "amount_mismatch"@,
        DiscrepancyType::MissingFromStatement => "missing_from_statement"@,
        DiscrepancyType::ExtraInStatement => "extra_in_statement"@,
        DiscrepancyType::Duplicate => "duplicate"@,
    }
}

pub open spec fn discrepancy_match_status(d: DiscrepancyType) -> Seq<char> {
    match d {
        DiscrepancyType::Matched => "matched"@,
        DiscrepancyType::AmountMismatch => "discrepancy"@,
        DiscrepancyType::MissingFromStatement => "missing"@,
        DiscrepancyType::ExtraInStatement => "extra"@,
        DiscrepancyType::Duplicate => "discrepancy"@,
    }
}

impl DiscrepancyType {
    pub fn as_str(self) -> (r: &'static str)
        ensures
            r@ == discrepancy_name(self),
    {
        match self {
            DiscrepancyType::Matched => "matched",
            DiscrepancyType::AmountMismatch => "amount_mismatch",
            DiscrepancyType::MissingFromStatement => "missing_from_statement",
            DiscrepancyType::ExtraInStatement => "extra_in_statement",
            DiscrepancyType::Duplicate => "duplicate",
        }
    }

    /// The `match_status` column value for this discrepancy.
    pub fn match_status(self) -> (r: &'static str)
        ensures
            r@ == discrepancy_match_status(self),
    {
        match self {
            DiscrepancyType::Matched => "matched",
            DiscrepancyType::AmountMismatch => "discrepancy",
            DiscrepancyType::MissingFromStatement => "missing",
            DiscrepancyType::ExtraInStatement => "extra",
            DiscrepancyType::Duplicate => "discrepancy",
        }
    }
}

/// One reconciled item.  Identifiers are the 128-bit values of the UUIDs;
/// amounts are micros, 0 on the side that is absent.
#[derive(Debug, Clone, Copy, PartialEq, Eq, Structural)]
pub struct ReconItem {
    pub transaction_id: Option<u128>,
    pub statement_line_id: Option<u128>,
    pub expected_amount: i64,
    pub actual_amount: i64,
    pub discrepancy_type: DiscrepancyType,
}

/// Whether a discrepancy count is "high": more than 10, or more than 5 % of
/// the records.
pub open spec fn high_discrepancy(count: nat, total_records: nat) -> bool {
    count > 10 || (total_records > 0 && count * 100 > 5 * total_records)
}

/// Counts and items of a finished reconciliation run.  Totals are micros.
#[derive(Debug)]
pub struct ReconciliationOutput {
    pub run_id: u128,
    pub run_date: Date,
    pub matched: usize,
    pub amount_mismatches: usize,
    pub missing_from_stmt: usize,
    pub extra_in_stmt: usize,
    pub duplicates: usize,
    pub total_expected: i128,
    pub total_collected: i128,
    pub items: Vec<ReconItem>,
}

impl ReconciliationOutput {
    pub open spec fn spec_discrepancy_count(&self) -> nat {
        (self.amount_mismatches + self.missing_from_stmt + self.extra_in_stmt + self.duplicates) as nat
    }

    /// Amount mismatches + missing + extra + duplicates.
    pub fn discrepancy_count(&self) -> (r: usize)
        requires
            self.spec_discrepancy_count() <= usize::MAX,
        ensures
            r == self.spec_discrepancy_count(),
    {
        self.amount_mismatches + self.missing_from_stmt + self.extra_in_stmt + self.duplicates
    }

    /// More than 10 discrepancies, or more than 5 % of `total_records`.
    pub fn is_high_discrepancy(&self, total_records: usize) -> (r: bool)
        requires
            self.spec_discrepancy_count() * 100 <= usize::MAX,
        ensures
            r == high_discrepancy(self.spec_discrepancy_count(), total_records as nat),
    {
        let count = self.discrepancy_count();
        count > 10 || (total_records > 0 && count * 20 > total_records)
    }
}

/// `GET /reconciliation/runs` query.
pub struct ListRunsQuery {
    pub status: Option<String>,
    pub limit: Option<i64>,
    pub offset: Option<i64>,
}

/// `GET /reconciliation/runs/{id}/items` query.
pub struct ListItemsQuery {
    pub discrepancy_type: Option<String>,
    pub limit: Option<i64>,
    pub offset: Option<i64>,
}

/// `v` clamped into `[lo, hi]`.
pub open spec fn clamp(v: int, lo: int, hi: int) -> int {
    if v < lo { lo } else if v > hi { hi } else { v }
}

/// The page size: `default` when absent, clamped into `[1, max]`.
pub open spec fn page_limit(limit: Option<i64>, default: int, max: int) -> int {
    clamp(match limit { Some(l) => l as int, None => default }, 1, max)
}

/// The offset: 0 when absent, never negative.
pub open spec fn page_offset(offset: Option<i64>) -> int {
    match offset { Some(o) => if o < 0 { 0 } else { o as int }, None => 0 }
}

impl ListRunsQuery {
    /// Page size: default 50, within `[1, 100]`.
    pub fn effective_limit(&self) -> (r: i64)
        ensures
            r == page_limit(self.limit, 50, 100),
    {
        let l = match self.limit { Some(l) => l, None => 50 };
        if l < 1 { 1 } else if l > 100 { 100 } else { l }
    }

    /// Offset: default 0, never negative.
    pub fn effective_offset(&self) -> (r: i64)
        ensures
            r == page_offset(self.offset),
    {
        match self.offset { Some(o) => if o < 0 { 0 } else { o }, None => 0 }
    }
}

impl ListItemsQuery {
    /// Page size: default 100, within `[1, 500]`.
    pub fn effective_limit(&self) -> (r: i64)
        ensures
            r == page_limit(self.limit, 100, 500),
    {
        let l = match self.limit { Some(l) => l, None => 100 };
        if l < 1 { 1 } else if l > 500 { 500 } else { l }
    }

    /// Offset: default 0, never negative.
    pub fn effective_offset(&self) -> (r: i64)
        ensures
            r == page_offset(self.offset),
    {
        match self.offset { Some(o) => if o < 0 { 0 } else { o }, None => 0 }
    }
}

} // verus!
