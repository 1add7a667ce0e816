//! Operations request types, paging, and the checks the route and trip
//! handlers apply.
use vstd::prelude::*;

use crate::text::text;

use crate::text::{chars_of, string_of, trim_chars, trimmed};

verus! {

broadcast use {vstd::string::group_string_axioms, vstd::slice::group_slice_axioms};


/// Paging of a list: 1-based `page`, `per_page` items each.
pub struct ListQuery {
    pub status: Option<String>,
    pub search: Option<String>,
    pub page: Option<i64>,
    pub per_page: Option<i64>,
}

/// Page size: 20 by default, within `[1, 100]`.
pub open spec fn per_page_of(q: ListQuery) -> int {
    let p = match q.per_page { Some(p) => p as int, None => 20 };
    if p < 1 { 1 } else if p > 100 { 100 } else { p }
}

/// Page number: 1 by default, at least 1.
pub open spec fn page_of(q: ListQuery) -> int {
    let p = match q.page { Some(p) => p as int, None => 1 };
    if p < 1 { 1 } else { p }
}

impl ListQuery {
    /// Rows to skip: `(page − 1) × per_page`.
    pub fn offset(&self) -> (r: i64)
        requires
            (page_of(*self) - 1) * per_page_of(*self) <= i64::MAX,
        ensures
            r == (page_of(*self) - 1) * per_page_of(*self),
    {
        let page = match self.page {
            Some(p) => if p < 1 { 1 } else { p },
            None => 1,
        };
        let per_page = self.limit();
        (page - 1) * per_page
    }

    /// Rows per page.
    pub fn limit(&self) -> (r: i64)
        ensures
            r == per_page_of(*self),
            1 <= r <= 100,
    {
        let p = match self.per_page {
            Some(p) => p,
            None => 20,
        };
        if p < 1 { 1 } else if p > 100 { 100 } else { p }
    }
}

/// A one-line confirmation.
pub struct OkResponse {
    pub message: &'static str,
}

/// A new route's code and name must not be blank.
pub fn check_route_names(code: &str, name: &str) -> (r: Result<(), String>)
    ensures
        r is Ok <==> (trimmed(code@).len() > 0 && trimmed(name@).len() > 0),
        r matches Err(m) ==> m@ == "code and name are required"@,
{
    let c = trim_chars(chars_of(code).as_slice());
    let n = trim_chars(chars_of(name).as_slice());
    if c.len() == 0 || n.len() == 0 {
        return Err(text("code and name are required"));
    }
    Ok(())
}

/// The status of a new route: `scheduled` when it takes effect after `now`,
/// otherwise `draft`.  Times are Unix seconds.
pub fn initial_route_status(effective_from: Option<i64>, now: i64) -> (r: &'static str)
    ensures
        r@ == (match effective_from {
            Some(t) => if t > now { "scheduled"@ } else { "draft"@ },
            None => "draft"@,
        }),
{
    match effective_from {
        Some(t) => if t > now { "scheduled" } else { "draft" },
        None => "draft",
    }
}

/// A schedule must take effect after `now`.
pub fn check_future(effective_from: i64, now: i64) -> (r: Result<(), String>)
    ensures
        r is Ok <==> effective_from > now,
        r matches Err(m) ==> m@ == "effective_from must be in the future"@,
{
    if effective_from <= now {
        return Err(text("effective_from must be in the future"));
    }
    Ok(())
}

/// An active route cannot be edited.
pub fn check_route_editable(status: &str) -> (r: Result<(), String>)
    ensures
        r is Ok <==> status@ != "active"@,
        r matches Err(m) ==> m@ == "Cannot edit an active route. Unpublish it first."@,
{
    if crate::text::str_eq(status, "active") {
        return Err(text("Cannot edit an active route. Unpublish it first."));
    }
    Ok(())
}

/// A trip must arrive after it departs.
pub fn check_trip_times(scheduled_departure: i64, scheduled_arrival: i64) -> (r: Result<(), String>)
    ensures
        r is Ok <==> scheduled_arrival > scheduled_departure,
        r matches Err(m) ==> m@ == "scheduled_arrival must be after scheduled_departure"@,
{
    if scheduled_arrival <= scheduled_departure {
        return Err(text("scheduled_arrival must be after scheduled_departure"));
    }
    Ok(())
}

/// A trip in progress or completed cannot be edited.
pub fn check_trip_editable(status: &str) -> (r: Result<(), String>)
    ensures
        r is Ok <==> (status@ != "in_progress"@ && status@ != "completed"@),
        r matches Err(m) ==> m@ == "Cannot edit a trip that is in_progress or completed"@,
{
    if crate::text::str_eq(status, "in_progress") || crate::text::str_eq(status, "completed") {
        return Err(text("Cannot edit a trip that is in_progress or completed"));
    }
    Ok(())
}

/// A service calendar must name at least one weekday.
pub fn check_calendar_days(days_of_week: &Vec<i16>) -> (r: Result<(), String>)
    ensures
        r is Ok <==> days_of_week@.len() > 0,
        r matches Err(m) ==> m@ == "days_of_week must not be empty"@,
{
    if days_of_week.len() == 0 {
        return Err(text("days_of_week must not be empty"));
    }
    Ok(())
}

} // verus!
