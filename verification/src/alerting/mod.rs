//! Anomaly alerts: the reconciliation-mismatch alert, alert notification
//! types, and the checks of the alert handlers.
use vstd::prelude::*;

use crate::text::text;

use crate::date::Date;
use crate::text::{chars_of, decimal, decimal_u128, push_chars, push_str, str_eq, string_of};

verus! {

broadcast use {vstd::string::group_string_axioms, vstd::slice::group_slice_axioms};


/// Interval between two KPI anomaly checks, in seconds (30 minutes).
pub const KPI_CHECK_INTERVAL_SECS: u64 = 1800;

/// `n` in decimal, zero-padded to at least `width` digits.
pub open spec fn padded(n: nat, width: nat) -> Seq<char> {
    if decimal(n).len() >= width {
        decimal(n)
    } else {
        crate::text::repeat_char('0', (width - decimal(n).len()) as nat) + decimal(n)
    }
}

fn padded_exec(n: u128, width: usize) -> (r: Vec<char>)
    ensures
        r@ == padded(n as nat, width as nat),
{
    let d = decimal_u128(n);
    if d.len() >= width {
        d
    } else {
        let mut v: Vec<char> = Vec::new();
        let k = width - d.len();
        let mut i: usize = 0;
        while i < k
            invariant
                i <= k,
                v@ == crate::text::repeat_char('0', i as nat),
            decreases k - i,
        {
            v.push('0');
            i = i + 1;
            assert(v@ =~= crate::text::repeat_char('0', i as nat));
        }
        push_chars(&mut v, d.as_slice());
        v
    }
}

/// A date as `YYYY-MM-DD` (years outside 0..=9999 carry their sign).
pub open spec fn date_text(d: Date) -> Seq<char> {
    let y = d.year as int;
    let year = if 0 <= y <= 9999 {
        padded(y as nat, 4)
    } else if y < 0 {
        seq!['-'] + padded((-y) as nat, 4)
    } else {
        seq!['+'] + padded(y as nat, 4)
    };
    year + seq!['-'] + padded(d.month as nat, 2) + seq!['-'] + padded(d.day as nat, 2)
}

/// Write a date as `YYYY-MM-DD`.
pub fn format_date(d: Date) -> (r: Vec<char>)
    ensures
        r@ == date_text(d),
{
    let mut v: Vec<char> = Vec::new();
    let y = d.year;
    if 0 <= y && y <= 9999 {
        let p = padded_exec(y as u128, 4);
        push_chars(&mut v, p.as_slice());
    } else if y < 0 {
        v.push('-');
        let p = padded_exec((-(y as i64)) as u128, 4);
        push_chars(&mut v, p.as_slice());
    } else {
        v.push('+');
        let p = padded_exec(y as u128, 4);
        push_chars(&mut v, p.as_slice());
    }
    v.push('-');
    let m = padded_exec(d.month as u128, 2);
    push_chars(&mut v, m.as_slice());
    v.push('-');
    let dd = padded_exec(d.day as u128, 2);
    push_chars(&mut v, dd.as_slice());
    proof {
        assert(v@ =~= date_text(d));
    }
    v
}

/// An alert to raise.
pub struct AlertDraft {
    pub alert_type: &'static str,
    pub severity: &'static str,
    pub title: String,
    pub description: String,
}

/// The mismatch alert of a reconciliation run with discrepancies: `critical`
/// when they are high, otherwise `warning`; none for a clean run.
pub fn reconciliation_alert(
    run_date: Date,
    discrepancy_count: usize,
    amount_mismatches: usize,
    missing: usize,
    extra: usize,
    duplicates: usize,
    is_high: bool,
) -> (r: Option<AlertDraft>)
    ensures
        discrepancy_count == 0 <==> r is None,
        r matches Some(a) ==> {
            &&& a.alert_type@ == "reconciliation_mismatch"@
            &&& a.severity@ == (if is_high { "critical"@ } else { "warning"@ })
            &&& a.title@ == "Reconciliation mismatch — "@ + date_text(run_date)
            &&& a.description@ == decimal(discrepancy_count as nat) + " discrepancies: "@ + decimal(amount_mismatches as nat)
                + " amount mismatches, "@ + decimal(missing as nat) + " missing from statement, "@ + decimal(extra as nat)
                + " extra in statement, "@ + decimal(duplicates as nat) + " duplicates"@
        },
{
    if discrepancy_count == 0 {
        return None;
    }
    let severity = if is_high { "critical" } else { "warning" };
    let mut t: Vec<char> = Vec::new();
    push_str(&mut t, "Reconciliation mismatch — ");
    let ds = format_date(run_date);
    push_chars(&mut t, ds.as_slice());
    let mut d: Vec<char> = Vec::new();
    push_chars(&mut d, decimal_u128(discrepancy_count as u128).as_slice());
    push_str(&mut d, " discrepancies: ");
    push_chars(&mut d, decimal_u128(amount_mismatches as u128).as_slice());
    push_str(&mut d, " amount mismatches, ");
    push_chars(&mut d, decimal_u128(missing as u128).as_slice());
    push_str(&mut d, " missing from statement, ");
    push_chars(&mut d, decimal_u128(extra as u128).as_slice());
    push_str(&mut d, " extra in statement, ");
    push_chars(&mut d, decimal_u128(duplicates as u128).as_slice());
    push_str(&mut d, " duplicates");
    Some(AlertDraft {
        alert_type: "reconciliation_mismatch",
        severity,
        title: string_of(t.as_slice()),
        description: string_of(d.as_slice()),
    })
}

/// The notification event type of an alert type, if it has one.
pub fn alert_event_type(alert_type: &str) -> (r: Option<&'static str>)
    ensures
        match r {
            Some(e) => (alert_type@ == "reconciliation_mismatch"@ && e@ == "alerts.anomaly.reconciliation_mismatch"@)
                || (alert_type@ == "kpi_anomaly"@ && e@ == "alerts.anomaly.kpi_deviation"@),
            None => alert_type@ != "reconciliation_mismatch"@ && alert_type@ != "kpi_anomaly"@,
        },
{
    if str_eq(alert_type, "reconciliation_mismatch") {
        Some("alerts.anomaly.reconciliation_mismatch")
    } else if str_eq(alert_type, "kpi_anomaly") {
        Some("alerts.anomaly.kpi_deviation")
    } else {
        None
    }
}

/// `GET /alerts` query.
pub struct ListAlertsQuery {
    pub status: Option<String>,
    pub severity: Option<String>,
    pub alert_type: Option<String>,
    pub limit: Option<i64>,
    pub offset: Option<i64>,
}

/// `POST /alerts/{id}/acknowledge` body.
pub struct AcknowledgeRequest {
    pub notes: Option<String>,
}

/// `POST /alerts/{id}/close` body.
pub struct CloseRequest {
    pub reason: Option<String>,
}

/// `"Invalid {what} '{value}'; must be one of: {names}"`.
fn invalid(what: &str, value: &str, names: &str) -> (r: String)
    ensures
        r@ == "Invalid "@ + what@ + " '"@ + value@ + "'; must be one of: "@ + names@,
{
    let mut m: Vec<char> = Vec::new();
    push_str(&mut m, "Invalid ");
    push_str(&mut m, what);
    push_str(&mut m, " '");
    push_str(&mut m, value);
    push_str(&mut m, "'; must be one of: ");
    push_str(&mut m, names);
    string_of(m.as_slice())
}

impl ListAlertsQuery {
    /// Check the filters: status, severity and type must be known ones.
    pub fn validate(&self) -> (r: Result<(), String>)
        ensures
            r is Ok <==> ((match self.status { Some(s) => s@ == "open"@ || s@ == "acknowledged"@ || s@ == "closed"@, None => true })
                && (match self.severity { Some(s) => s@ == "info"@ || s@ == "warning"@ || s@ == "critical"@, None => true })
                && (match self.alert_type { Some(s) => s@ == "reconciliation_mismatch"@ || s@ == "kpi_anomaly"@, None => true })),
    {
        match &self.status {
            Some(s) => if !(str_eq(s.as_str(), "open") || str_eq(s.as_str(), "acknowledged") || str_eq(s.as_str(), "closed")) {
                return Err(invalid("status", s.as_str(), "open, acknowledged, closed"));
            },
            None => {},
        }
        match &self.severity {
            Some(s) => if !(str_eq(s.as_str(), "info") || str_eq(s.as_str(), "warning") || str_eq(s.as_str(), "critical")) {
                return Err(invalid("severity", s.as_str(), "info, warning, critical"));
            },
            None => {},
        }
        match &self.alert_type {
            Some(s) => if !(str_eq(s.as_str(), "reconciliation_mismatch") || str_eq(s.as_str(), "kpi_anomaly")) {
                return Err(invalid("alert_type", s.as_str(), "reconciliation_mismatch, kpi_anomaly"));
            },
            None => {},
        }
        Ok(())
    }

    /// Page size: 50 by default, within `[1, 200]`.
    pub fn effective_limit(&self) -> (r: i64)
        ensures
            r == (match self.limit {
                Some(l) => if l < 1 { 1 } else if l > 200 { 200 } else { l },
                None => 50,
            }),
    {
        let l = match self.limit {
            Some(l) => l,
            None => 50,
        };
        if l < 1 { 1 } else if l > 200 { 200 } else { l }
    }

    /// Offset: 0 by default, never negative.
    pub fn effective_offset(&self) -> (r: i64)
        ensures
            r == (match self.offset { Some(o) => if o < 0 { 0 } else { o }, None => 0 }),
    {
        match self.offset {
            Some(o) => if o < 0 { 0 } else { o },
            None => 0,
        }
    }
}

/// An alert can be acknowledged only while open.
pub fn check_acknowledgeable(status: &str) -> (r: Result<(), String>)
    ensures
        r is Ok <==> status@ == "open"@,
        r matches Err(m) ==> m@ == "Alert cannot be acknowledged from status '"@ + status@ + "' (must be open)"@,
{
    if str_eq(status, "open") {
        return Ok(());
    }
    let mut m: Vec<char> = Vec::new();
    push_str(&mut m, "Alert cannot be acknowledged from status '");
    push_str(&mut m, status);
    push_str(&mut m, "' (must be open)");
    Err(string_of(m.as_slice()))
}

/// An alert can be closed unless it already is.
pub fn check_closable(status: &str) -> (r: Result<(), String>)
    ensures
        r is Ok <==> status@ != "closed"@,
        r matches Err(m) ==> m@ == "Alert is already closed"@,
{
    if str_eq(status, "closed") {
        return Err(text("Alert is already closed"));
    }
    Ok(())
}

} // verus!
