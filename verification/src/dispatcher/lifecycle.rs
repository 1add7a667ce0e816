//! The trip lifecycle as dispatchers drive it, the conflict review states,
//! and the dispatcher request types.  Times are Unix seconds.
use vstd::prelude::*;

use crate::text::text;

use crate::text::{chars_of, str_eq, string_of};

verus! {

broadcast use {vstd::string::group_string_axioms, vstd::slice::group_slice_axioms};

/// Event types the dispatcher raises.
pub const TRIP_MODIFIED: &'static str = "ops.trip.modified";
pub const TRIP_DRIVER_ASSIGNED: &'static str = "ops.trip.driver_assigned";
pub const TRIP_STARTED: &'static str = "ops.trip.started";
pub const TRIP_COMPLETED: &'static str = "ops.trip.completed";
pub const TRIP_CANCELLED: &'static str = "ops.trip.cancelled";
pub const TRIP_CONFLICT_DETECTED: &'static str = "ops.trip.conflict_detected";
pub const TRIP_START_APPROACHING: &'static str = "ops.trip.start_approaching";

/// `PATCH /dispatcher/trips/{id}` body.
pub struct PatchTripRequest {
    pub scheduled_departure: Option<i64>,
    pub scheduled_arrival: Option<i64>,
    pub assigned_driver_id: Option<u128>,
    pub note: Option<String>,
}

/// `POST /dispatcher/trips/{id}/assign` body.
pub struct AssignDriverRequest {
    pub driver_id: u128,
    pub note: Option<String>,
}

/// `POST /dispatcher/trips/{id}/cancel` body.
pub struct CancelTripRequest {
    pub reason: Option<String>,
}

/// `POST /dispatcher/conflicts/{id}/resolve` body.
pub struct ResolveConflictRequest {
    pub notes: Option<String>,
}

/// `GET /dispatcher/monitor/upcoming` query.
pub struct UpcomingQuery {
    pub window_minutes: Option<i64>,
}

impl UpcomingQuery {
    /// Look-ahead window: 120 minutes by default, within `[10, 480]`.
    pub fn window(&self) -> (r: i64)
        ensures
            r == (match self.window_minutes {
                Some(w) => if w < 10 { 10 } else if w > 480 { 480 } else { w },
                None => 120,
            }),
    {
        let w = match self.window_minutes {
            Some(w) => w,
            None => 120,
        };
        if w < 10 { 10 } else if w > 480 { 480 } else { w }
    }
}


/// A patch that sets both times must end after it starts.
pub fn check_patch_times(req: &PatchTripRequest) -> (r: Result<(), String>)
    ensures
        match (req.scheduled_departure, req.scheduled_arrival) {
            (Some(d), Some(a)) => if a <= d {
                r matches Err(m) && m@ == "scheduled_arrival must be after scheduled_departure"@
            } else {
                r is Ok
            },
            _ => r is Ok,
        },
{
    match (req.scheduled_departure, req.scheduled_arrival) {
        (Some(d), Some(a)) => if a <= d {
            return Err(text("scheduled_arrival must be after scheduled_departure"));
        },
        _ => {},
    }
    Ok(())
}

/// A dispatcher action on a trip.
#[derive(Debug, Clone, Copy, PartialEq, Eq, Structural)]
pub enum TripAction {
    Modify,
    Start,
    Complete,
    Cancel,
}

/// The status a trip in status `s` moves to under `action`, if allowed.
/// `Modify` keeps the status.
pub open spec fn trip_transition(s: Seq<char>, action: TripAction) -> Option<Seq<char>> {
    match action {
        TripAction::Modify => if s != "completed"@ && s != "cancelled"@ { Some(s) } else { None },
        TripAction::Start => if s == "published"@ || s == "draft"@ || s == "scheduled"@ {
            Some("in_progress"@)
        } else {
            None
        },
        TripAction::Complete => if s == "in_progress"@ { Some("completed"@) } else { None },
        TripAction::Cancel => if s != "completed"@ && s != "cancelled"@ { Some("cancelled"@) } else { None },
    }
}

/// The message answered when an action is refused.
pub open spec fn refusal(action: TripAction) -> Seq<char> {
    match action {
        TripAction::Modify => "Trip not found or cannot be modified in its current status"@,
        TripAction::Start => "Trip not found or cannot be started in its current status"@,
        TripAction::Complete => "Trip not found or is not currently in_progress"@,
        TripAction::Cancel => "Trip not found or is already completed/cancelled"@,
    }
}

/// Apply `action` to a trip in status `status`.
pub fn apply_trip_action(status: &str, action: TripAction) -> (r: Result<String, String>)
    ensures
        match trip_transition(status@, action) {
            Some(s) => r matches Ok(t) && t@ == s,
            None => r matches Err(m) && m@ == refusal(action),
        },
{
    let done = str_eq(status, "completed") || str_eq(status, "cancelled");
    match action {
        TripAction::Modify => if !done {
            Ok(text(status))
        } else {
            Err(text("Trip not found or cannot be modified in its current status"))
        },
        TripAction::Start => if str_eq(status, "published") || str_eq(status, "draft") || str_eq(status, "scheduled") {
            Ok(text("in_progress"))
        } else {
            Err(text("Trip not found or cannot be started in its current status"))
        },
        TripAction::Complete => if str_eq(status, "in_progress") {
            Ok(text("completed"))
        } else {
            Err(text("Trip not found or is not currently in_progress"))
        },
        TripAction::Cancel => if !done {
            Ok(text("cancelled"))
        } else {
            Err(text("Trip not found or is already completed/cancelled"))
        },
    }
}

/// Completed and cancelled trips are final: no action applies to them.
pub proof fn law_finished_trips_are_final(action: TripAction)
    ensures
        trip_transition("completed"@, action) is None,
        trip_transition("cancelled"@, action) is None,
{
    reveal_strlit("completed");
    reveal_strlit("cancelled");
    reveal_strlit("in_progress");
    reveal_strlit("published");
    reveal_strlit("draft");
    reveal_strlit("scheduled");
    assert("completed"@[0] != "published"@[0]);
    assert("completed"@[0] != "scheduled"@[0]);
    assert("completed"@.len() != "draft"@.len());
    assert("completed"@[0] != "in_progress"@[0]);
    assert("cancelled"@[0] != "published"@[0]);
    assert("cancelled"@[0] != "scheduled"@[0]);
    assert("cancelled"@.len() != "draft"@.len());
    assert("cancelled"@[0] != "in_progress"@[0]);
    assert("cancelled"@[1] != "completed"@[1]);
}

/// Once a trip is started, completing it succeeds and gives `completed`,
/// and starting it again is refused.
pub proof fn law_start_then_complete(s: Seq<char>)
    requires
        trip_transition(s, TripAction::Start) is Some,
    ensures
        trip_transition(trip_transition(s, TripAction::Start).unwrap(), TripAction::Complete) == Some("completed"@),
        trip_transition(trip_transition(s, TripAction::Start).unwrap(), TripAction::Start) is None,
{
    reveal_strlit("in_progress");
    reveal_strlit("published");
    reveal_strlit("draft");
    reveal_strlit("scheduled");
    assert("in_progress"@.len() != "published"@.len());
    assert("in_progress"@.len() != "draft"@.len());
    assert("in_progress"@.len() != "scheduled"@.len());
}

/// A review step on a conflict.
#[derive(Debug, Clone, Copy, PartialEq, Eq, Structural)]
pub enum ConflictStep {
    /// `open` → `acknowledged`.
    Acknowledge,
    /// `open` or `acknowledged` → `resolved`.
    Resolve,
}

/// Move a conflict in status `status` through `step`.
pub fn review_conflict(status: &str, step: ConflictStep) -> (r: Result<&'static str, String>)
    ensures
        match step {
            ConflictStep::Acknowledge => if status@ == "open"@ {
                r matches Ok(s) && s@ == "acknowledged"@
            } else {
                r matches Err(m) && m@ == "Conflict not found or is not open"@
            },
            ConflictStep::Resolve => if status@ == "open"@ || status@ == "acknowledged"@ {
                r matches Ok(s) && s@ == "resolved"@
            } else {
                r matches Err(m) && m@ == "Conflict not found or already resolved"@
            },
        },
{
    match step {
        ConflictStep::Acknowledge => if str_eq(status, "open") {
            Ok("acknowledged")
        } else {
            Err(text("Conflict not found or is not open"))
        },
        ConflictStep::Resolve => if str_eq(status, "open") || str_eq(status, "acknowledged") {
            Ok("resolved")
        } else {
            Err(text("Conflict not found or already resolved"))
        },
    }
}

} // verus!
