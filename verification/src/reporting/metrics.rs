//! Metric helpers and the checks the reporting handlers apply.
use vstd::prelude::*;

use crate::text::text;

use crate::text::{chars_of, push_str, str_eq, string_of};

verus! {

broadcast use {vstd::string::group_string_axioms, vstd::slice::group_slice_axioms};


/// The PostgreSQL interval of one period of a granularity (`day` for
/// anything unknown).
pub open spec fn interval_of(granularity: Seq<char>) -> Seq<char> {
    if granularity == "hour"@ {
        "1 hour"@
    } else if granularity == "week"@ {
        "1 week"@
    } else if granularity == "month"@ {
        "1 month"@
    } else {
        "1 day"@
    }
}

/// The interval of one period.
pub fn granularity_interval(granularity: &str) -> (r: &'static str)
    ensures
        r@ == interval_of(granularity@),
{
    if str_eq(granularity, "hour") {
        "1 hour"
    } else if str_eq(granularity, "week") {
        "1 week"
    } else if str_eq(granularity, "month") {
        "1 month"
    } else {
        "1 day"
    }
}

/// The unit of a built-in formula's values.
pub open spec fn unit_of(formula_type: Seq<char>) -> Seq<char> {
    if formula_type == "on_time_departure_rate"@ || formula_type == "refund_rate"@ {
        "%"@
    } else if formula_type == "reconciliation_mismatch_count"@ {
        "transactions"@
    } else {
        Seq::empty()
    }
}

/// The unit of a formula's values.
pub fn unit_for_formula(formula_type: &str) -> (r: String)
    ensures
        r@ == unit_of(formula_type@),
{
    if str_eq(formula_type, "on_time_departure_rate") || str_eq(formula_type, "refund_rate") {
        text("%")
    } else if str_eq(formula_type, "reconciliation_mismatch_count") {
        text("transactions")
    } else {
        String::new()
    }
}

/// A metric's formula must be a known one.
pub fn check_formula_type(formula_type: &str) -> (r: Result<(), String>)
    ensures
        r is Ok <==> (formula_type@ == "on_time_departure_rate"@ || formula_type@ == "refund_rate"@
            || formula_type@ == "reconciliation_mismatch_count"@ || formula_type@ == "custom_sql"@),
        r matches Err(m) ==> m@
            == "formula_type must be one of: on_time_departure_rate, refund_rate, reconciliation_mismatch_count, custom_sql"@,
{
    if str_eq(formula_type, "on_time_departure_rate") || str_eq(formula_type, "refund_rate") || str_eq(
        formula_type,
        "reconciliation_mismatch_count",
    ) || str_eq(formula_type, "custom_sql") {
        Ok(())
    } else {
        Err(text("formula_type must be one of: on_time_departure_rate, refund_rate, reconciliation_mismatch_count, custom_sql"))
    }
}

/// A built-in metric's dimensions and configuration cannot change.
pub fn check_builtin_update(is_builtin: bool, changes_dimensions: bool, changes_config: bool) -> (r: Result<(), String>)
    ensures
        r is Ok <==> !(is_builtin && (changes_dimensions || changes_config)),
        r matches Err(m) ==> m@ == "built-in metric dimension_keys and config are immutable"@,
{
    if is_builtin && (changes_dimensions || changes_config) {
        return Err(text("built-in metric dimension_keys and config are immutable"));
    }
    Ok(())
}

/// The granularity of an ad-hoc computation after the checks: metrics must
/// be named, the range must be non-empty, and the granularity (`day` by
/// default) must be known.  Times are Unix seconds.
pub fn check_compute_request(metric_count: usize, date_from: i64, date_to: i64, granularity: Option<&str>) -> (r: Result<
    String,
    String,
>)
    ensures
        metric_count == 0 ==> (r matches Err(m) && m@ == "metric_ids must not be empty"@),
        metric_count > 0 && date_from >= date_to ==> (r matches Err(m) && m@ == "date_from must be before date_to"@),
        metric_count > 0 && date_from < date_to ==> {
            let g = match granularity { Some(g) => g@, None => "day"@ };
            if g == "hour"@ || g == "day"@ || g == "week"@ || g == "month"@ {
                r matches Ok(s) && s@ == g
            } else {
                r matches Err(m) && m@ == "granularity must be one of: hour, day, week, month"@
            }
        },
{
    if metric_count == 0 {
        return Err(text("metric_ids must not be empty"));
    }
    if date_from >= date_to {
        return Err(text("date_from must be before date_to"));
    }
    let g = match granularity {
        Some(g) => g,
        None => "day",
    };
    if str_eq(g, "hour") || str_eq(g, "day") || str_eq(g, "week") || str_eq(g, "month") {
        Ok(text(g))
    } else {
        Err(text("granularity must be one of: hour, day, week, month"))
    }
}

/// A schedule must be `daily`, `weekly` or `monthly`.
pub fn check_schedule(schedule: &str) -> (r: Result<(), String>)
    ensures
        r is Ok <==> (schedule@ == "daily"@ || schedule@ == "weekly"@ || schedule@ == "monthly"@),
        r matches Err(m) ==> m@ == "schedule must be one of: daily, weekly, monthly"@,
{
    if str_eq(schedule, "daily") || str_eq(schedule, "weekly") || str_eq(schedule, "monthly") {
        Ok(())
    } else {
        Err(text("schedule must be one of: daily, weekly, monthly"))
    }
}

/// `GET /reporting/runs/{id}/export` query.
pub struct ExportQuery {
    /// `csv` or `pdf`; the run's own format by default.
    pub format: Option<String>,
}

/// A run can be exported once it is completed.
pub fn check_exportable(status: &str) -> (r: Result<(), String>)
    ensures
        r is Ok <==> status@ == "completed"@,
        r matches Err(m) ==> m@ == "run is not completed (status: "@ + status@ + ")"@,
{
    if str_eq(status, "completed") {
        return Ok(());
    }
    let mut m: Vec<char> = Vec::new();
    push_str(&mut m, "run is not completed (status: ");
    push_str(&mut m, status);
    push_str(&mut m, ")");
    Err(string_of(m.as_slice()))
}

/// The export format: the query's, else the run's.
pub fn export_format(query: &ExportQuery, run_format: &str) -> (r: String)
    ensures
        r@ == (match query.format { Some(f) => f@, None => run_format@ }),
{
    match &query.format {
        Some(f) => text(f.as_str()),
        None => text(run_format),
    }
}

} // verus!
