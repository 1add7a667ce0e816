//! Conflict detection between trips.
//!
//! * `driver_overlap` (critical): one driver on two trips whose times overlap.
//! * `route_headway` (critical under 1 minute, warning under 5): two trips of
//!   one route departing too close together.
//! * `unassigned_approaching` (critical under 10 minutes, warning under 30):
//!   a trip without a driver that departs soon.
//!
//! Times are Unix seconds.
use vstd::prelude::*;

use crate::text::{chars_of, decimal, decimal_i64, decimal_int, digit_char, push_chars, push_str, str_eq, string_of};

verus! {

broadcast use {vstd::string::group_string_axioms, vstd::slice::group_slice_axioms};

/// Departures closer than this (seconds) are a critical headway violation.
pub const HEADWAY_CRITICAL_SECS: i64 = 60;
/// Departures closer than this (seconds) are a headway warning.
pub const HEADWAY_WARNING_SECS: i64 = 300;
/// A driverless trip departing within this many minutes is critical.
pub const APPROACHING_CRITICAL_MINS: i64 = 10;
/// A driverless trip departing within this many minutes is a warning.
pub const APPROACHING_WARNING_MINS: i64 = 30;

/// The trip being checked.
pub struct TripCheckInput {
    pub trip_id: u128,
    pub trip_code: String,
    pub route_id: u128,
    pub assigned_driver_id: Option<u128>,
    pub scheduled_departure: i64,
    pub scheduled_arrival: i64,
}

/// Another trip it may conflict with.
pub struct OtherTrip {
    pub id: u128,
    pub trip_code: String,
    pub status: String,
    pub scheduled_departure: i64,
    pub scheduled_arrival: i64,
}

/// A detected conflict, not yet stored.
pub struct ConflictDetail {
    pub conflict_type: &'static str,
    pub trip_id_1: u128,
    pub trip_id_1_code: String,
    pub trip_id_2: Option<u128>,
    pub trip_id_2_code: Option<String>,
    pub description: String,
    pub severity: &'static str,
}

/// `[a_dep, a_arr]` and `[b_dep, b_arr]` overlap: each starts before the
/// other ends.
pub open spec fn overlap(a_dep: int, a_arr: int, b_dep: int, b_arr: int) -> bool {
    a_dep < b_arr && a_arr > b_dep
}

/// Whether two trips' times overlap.
pub fn intervals_overlap(a_dep: i64, a_arr: i64, b_dep: i64, b_arr: i64) -> (r: bool)
    ensures
        r == overlap(a_dep as int, a_arr as int, b_dep as int, b_arr as int),
{
    a_dep < b_arr && a_arr > b_dep
}

/// Whether a trip in status `s` still takes part in conflict checks.
pub open spec fn live_status(s: Seq<char>) -> bool {
    s != "cancelled"@ && s != "completed"@
}

/// Whole minutes in `seconds`, truncated toward zero.
pub open spec fn minutes_of(seconds: int) -> int {
    if seconds >= 0 { seconds / 60 } else { -((-seconds) / 60) }
}

fn minutes_exec(seconds: i128) -> (r: i128)
    requires
        -0x1_0000_0000_0000_0000_0000 < seconds < 0x1_0000_0000_0000_0000_0000,
    ensures
        r == minutes_of(seconds as int),
{
    if seconds >= 0 { seconds / 60 } else { -((-seconds) / 60) }
}

/// `HH:MM` of a Unix time, in UTC.
pub open spec fn clock_text(t: int) -> Seq<char> {
    let day = t % 86400;
    let h = day / 3600;
    let m = (day % 3600) / 60;
    seq![digit_char((h / 10) as nat), digit_char((h % 10) as nat), ':', digit_char((m / 10) as nat), digit_char((m % 10) as nat)]
}

fn clock_exec(t: i64) -> (r: Vec<char>)
    ensures
        r@ == clock_text(t as int),
{
    let day: i64 = if t % 86400 < 0 { t % 86400 + 86400 } else { t % 86400 };
    assert(day == (t as int) % 86400);
    let h = day / 3600;
    let m = (day % 3600) / 60;
    let mut v: Vec<char> = Vec::new();
    v.push(((h / 10) as u8 + 48u8) as char);
    v.push(((h % 10) as u8 + 48u8) as char);
    v.push(':');
    v.push(((m / 10) as u8 + 48u8) as char);
    v.push(((m % 10) as u8 + 48u8) as char);
    assert(v@ =~= clock_text(t as int));
    v
}

/// The overlap conflict between `trip` and `other`, assigned to the same
/// driver: its length in whole minutes (at least 0) and its bounds.
pub open spec fn overlap_description(code: Seq<char>, other_code: Seq<char>, start: int, end: int) -> Seq<char> {
    let mins = if minutes_of(end - start) < 0 { 0 } else { minutes_of(end - start) };
    "Driver is double-booked: trips '"@ + code + "' and '"@ + other_code + "' overlap by "@ + decimal_int(mins)
        + " minute(s) ["@ + clock_text(start) + " → "@ + clock_text(end) + "]."@
}

/// `c` is the conflict of `trip` with `other` of the given kind, severity
/// and description.
pub open spec fn conflict_is(
    c: ConflictDetail,
    kind: Seq<char>,
    trip: TripCheckInput,
    other: OtherTrip,
    severity: Seq<char>,
    description: Seq<char>,
) -> bool {
    &&& c.conflict_type@ == kind
    &&& c.trip_id_1 == trip.trip_id
    &&& c.trip_id_1_code@ == trip.trip_code@
    &&& c.trip_id_2 == Some(other.id)
    &&& (c.trip_id_2_code matches Some(code) && code@ == other.trip_code@)
    &&& c.description@ == description
    &&& c.severity@ == severity
}

/// `other` is a live trip, distinct from `trip`, whose times overlap it.
pub open spec fn double_booked(trip: TripCheckInput, other: OtherTrip) -> bool {
    &&& other.id != trip.trip_id
    &&& live_status(other.status@)
    &&& overlap(trip.scheduled_departure as int, trip.scheduled_arrival as int,
        other.scheduled_departure as int, other.scheduled_arrival as int)
}

/// The trips of `others` that `trip`'s driver is double-booked with, in order.
pub open spec fn overlapping_trips(trip: TripCheckInput, others: Seq<OtherTrip>) -> Seq<OtherTrip>
    decreases others.len(),
{
    if others.len() == 0 {
        seq![]
    } else {
        let rest = overlapping_trips(trip, others.drop_last());
        if double_booked(trip, others.last()) { rest.push(others.last()) } else { rest }
    }
}

/// The driver-overlap conflict of `trip` with `other`.
pub open spec fn overlap_conflict_is(c: ConflictDetail, trip: TripCheckInput, other: OtherTrip) -> bool {
    let start = if trip.scheduled_departure > other.scheduled_departure { trip.scheduled_departure } else { other.scheduled_departure };
    let end = if trip.scheduled_arrival < other.scheduled_arrival { trip.scheduled_arrival } else { other.scheduled_arrival };
    conflict_is(c, "driver_overlap"@, trip, other, "critical"@,
        overlap_description(trip.trip_code@, other.trip_code@, start as int, end as int))
}

/// The driver-overlap conflicts of `trip` among `others` (trips of the same
/// driver): one for each other live trip whose times overlap, in order.
pub fn driver_overlaps(trip: &TripCheckInput, others: &Vec<OtherTrip>) -> (r: Vec<ConflictDetail>)
    ensures
        r@.len() == overlapping_trips(*trip, others@).len(),
        forall|i: int| 0 <= i < r@.len() ==> overlap_conflict_is(#[trigger] r@[i], *trip, overlapping_trips(*trip, others@)[i]),
{
    let mut out: Vec<ConflictDetail> = Vec::new();
    let mut j: usize = 0;
    while j < others.len()
        invariant
            j <= others@.len(),
            out@.len() == overlapping_trips(*trip, others@.take(j as int)).len(),
            forall|i: int| 0 <= i < out@.len() ==>
                overlap_conflict_is(#[trigger] out@[i], *trip, overlapping_trips(*trip, others@.take(j as int))[i]),
        decreases others.len() - j,
    {
        let o = &others[j];
        let ghost prev = overlapping_trips(*trip, others@.take(j as int));
        proof {
            assert(others@.take(j + 1).drop_last() =~= others@.take(j as int));
            assert(others@.take(j + 1).last() == others@[j as int]);
            reveal_strlit("cancelled");
            reveal_strlit("completed");
        }
        let live = !str_eq(o.status.as_str(), "cancelled") && !str_eq(o.status.as_str(), "completed");
        if o.id != trip.trip_id && live && intervals_overlap(
            trip.scheduled_departure,
            trip.scheduled_arrival,
            o.scheduled_departure,
            o.scheduled_arrival,
        ) {
            let start = if trip.scheduled_departure > o.scheduled_departure { trip.scheduled_departure } else { o.scheduled_departure };
            let end = if trip.scheduled_arrival < o.scheduled_arrival { trip.scheduled_arrival } else { o.scheduled_arrival };
            let mins = minutes_exec(end as i128 - start as i128);
            let mins = if mins < 0 { 0 } else { mins };
            let mut d: Vec<char> = Vec::new();
            push_str(&mut d, "Driver is double-booked: trips '");
            push_str(&mut d, trip.trip_code.as_str());
            push_str(&mut d, "' and '");
            push_str(&mut d, o.trip_code.as_str());
            push_str(&mut d, "' overlap by ");
            let mt = crate::text::decimal_u128(mins as u128);
            push_chars(&mut d, mt.as_slice());
            push_str(&mut d, " minute(s) [");
            let s1 = clock_exec(start);
            push_chars(&mut d, s1.as_slice());
            push_str(&mut d, " → ");
            let s2 = clock_exec(end);
            push_chars(&mut d, s2.as_slice());
            push_str(&mut d, "].");
            proof {
                assert(decimal_int(mins as int) == decimal(mins as nat));
                assert(d@ =~= overlap_description(trip.trip_code@, o.trip_code@, start as int, end as int));
            }
            let ghost before = out@;
            out.push(ConflictDetail {
                conflict_type: "driver_overlap",
                trip_id_1: trip.trip_id,
                trip_id_1_code: string_of(chars_of(trip.trip_code.as_str()).as_slice()),
                trip_id_2: Some(o.id),
                trip_id_2_code: Some(string_of(chars_of(o.trip_code.as_str()).as_slice())),
                description: string_of(d.as_slice()),
                severity: "critical",
            });
            proof {
                let next = overlapping_trips(*trip, others@.take(j + 1));
                assert(next == prev.push(*o));
                assert forall|i: int| 0 <= i < out@.len() implies
                    overlap_conflict_is(#[trigger] out@[i], *trip, next[i]) by {
                    if i < before.len() {
                        assert(out@[i] == before[i]);
                    }
                }
            }
        }
        j = j + 1;
    }
    proof {
        assert(others@.take(others@.len() as int) =~= others@);
    }
    out
}

/// Severity of a headway gap in seconds: `critical` under 60, `warning`
/// under 300, none otherwise.
pub open spec fn headway_severity(gap: int) -> Option<Seq<char>> {
    if gap < HEADWAY_CRITICAL_SECS {
        Some("critical"@)
    } else if gap < HEADWAY_WARNING_SECS {
        Some("warning"@)
    } else {
        None
    }
}

/// Classify a headway gap.
pub fn classify_headway(gap_secs: i64) -> (r: Option<&'static str>)
    ensures
        match r {
            Some(s) => headway_severity(gap_secs as int) == Some(s@),
            None => headway_severity(gap_secs as int) is None,
        },
{
    if gap_secs < HEADWAY_CRITICAL_SECS {
        Some("critical")
    } else if gap_secs < HEADWAY_WARNING_SECS {
        Some("warning")
    } else {
        None
    }
}

/// `|a − b|`.
pub open spec fn gap(a: int, b: int) -> int {
    if a >= b { a - b } else { b - a }
}

/// `other` is a live trip, distinct from `trip`, departing less than 300
/// seconds away from it.
pub open spec fn too_close(trip: TripCheckInput, other: OtherTrip) -> bool {
    &&& other.id != trip.trip_id
    &&& live_status(other.status@)
    &&& gap(trip.scheduled_departure as int, other.scheduled_departure as int) < HEADWAY_WARNING_SECS
}

/// The trips of `others` departing too close to `trip`, in order.
pub open spec fn close_trips(trip: TripCheckInput, others: Seq<OtherTrip>) -> Seq<OtherTrip>
    decreases others.len(),
{
    if others.len() == 0 {
        seq![]
    } else {
        let rest = close_trips(trip, others.drop_last());
        if too_close(trip, others.last()) { rest.push(others.last()) } else { rest }
    }
}

/// The text of a headway conflict between trips departing `g` seconds apart.
pub open spec fn headway_description(code: Seq<char>, other_code: Seq<char>, g: int) -> Seq<char> {
    "Headway violation on route: trips '"@ + code + "' and '"@ + other_code + "' depart only "@ + decimal_int(g)
        + "s apart (minimum: 60s, recommended: 300s)."@
}

/// The headway conflict of `trip` with `other`.
pub open spec fn headway_conflict_is(c: ConflictDetail, trip: TripCheckInput, other: OtherTrip) -> bool {
    let g = gap(trip.scheduled_departure as int, other.scheduled_departure as int);
    &&& headway_severity(g) matches Some(sev)
    &&& conflict_is(c, "route_headway"@, trip, other, sev, headway_description(trip.trip_code@, other.trip_code@, g))
}

/// The headway conflicts of `trip` among `others` (trips of the same route):
/// one for each other live trip departing less than 300 seconds away, in order.
pub fn headway_conflicts(trip: &TripCheckInput, others: &Vec<OtherTrip>) -> (r: Vec<ConflictDetail>)
    ensures
        r@.len() == close_trips(*trip, others@).len(),
        forall|i: int| 0 <= i < r@.len() ==> headway_conflict_is(#[trigger] r@[i], *trip, close_trips(*trip, others@)[i]),
{
    let mut out: Vec<ConflictDetail> = Vec::new();
    let mut j: usize = 0;
    while j < others.len()
        invariant
            j <= others@.len(),
            out@.len() == close_trips(*trip, others@.take(j as int)).len(),
            forall|i: int| 0 <= i < out@.len() ==>
                headway_conflict_is(#[trigger] out@[i], *trip, close_trips(*trip, others@.take(j as int))[i]),
        decreases others.len() - j,
    {
        let o = &others[j];
        let ghost prev = close_trips(*trip, others@.take(j as int));
        proof {
            assert(others@.take(j + 1).drop_last() =~= others@.take(j as int));
            assert(others@.take(j + 1).last() == others@[j as int]);
            reveal_strlit("cancelled");
            reveal_strlit("completed");
        }
        let live = !str_eq(o.status.as_str(), "cancelled") && !str_eq(o.status.as_str(), "completed");
        let g: i128 = if trip.scheduled_departure as i128 >= o.scheduled_departure as i128 {
            trip.scheduled_departure as i128 - o.scheduled_departure as i128
        } else {
            o.scheduled_departure as i128 - trip.scheduled_departure as i128
        };
        if o.id != trip.trip_id && live && g < HEADWAY_WARNING_SECS as i128 {
            let sev = classify_headway(g as i64).unwrap();
            let mut d: Vec<char> = Vec::new();
            push_str(&mut d, "Headway violation on route: trips '");
            push_str(&mut d, trip.trip_code.as_str());
            push_str(&mut d, "' and '");
            push_str(&mut d, o.trip_code.as_str());
            push_str(&mut d, "' depart only ");
            let gt = crate::text::decimal_u128(g as u128);
            push_chars(&mut d, gt.as_slice());
            push_str(&mut d, "s apart (minimum: 60s, recommended: 300s).");
            proof {
                assert(decimal_int(g as int) == decimal(g as nat));
                assert(d@ =~= headway_description(trip.trip_code@, o.trip_code@, g as int));
            }
            let ghost before = out@;
            out.push(ConflictDetail {
                conflict_type: "route_headway",
                trip_id_1: trip.trip_id,
                trip_id_1_code: string_of(chars_of(trip.trip_code.as_str()).as_slice()),
                trip_id_2: Some(o.id),
                trip_id_2_code: Some(string_of(chars_of(o.trip_code.as_str()).as_slice())),
                description: string_of(d.as_slice()),
                severity: sev,
            });
            proof {
                let next = close_trips(*trip, others@.take(j + 1));
                assert(next == prev.push(*o));
                assert forall|i: int| 0 <= i < out@.len() implies
                    headway_conflict_is(#[trigger] out@[i], *trip, next[i]) by {
                    if i < before.len() {
                        assert(out@[i] == before[i]);
                    }
                }
            }
        }
        j = j + 1;
    }
    proof {
        assert(others@.take(others@.len() as int) =~= others@);
    }
    out
}

/// The headway gap between two departures is their distance, whichever
/// departs first: a live trip of the route departing less than 300 seconds
/// before the checked trip conflicts with it exactly as one departing as
/// long after; the conflict is critical under 60 seconds and a warning from
/// 60 seconds on.
pub proof fn law_headway_gap_is_symmetric(trip: TripCheckInput, other: OtherTrip)
    ensures
        gap(trip.scheduled_departure as int, other.scheduled_departure as int)
            == gap(other.scheduled_departure as int, trip.scheduled_departure as int),
        gap(trip.scheduled_departure as int, other.scheduled_departure as int) >= 0,
        gap(trip.scheduled_departure as int, other.scheduled_departure as int)
            == trip.scheduled_departure - other.scheduled_departure
            || gap(trip.scheduled_departure as int, other.scheduled_departure as int)
            == other.scheduled_departure - trip.scheduled_departure,
        close_trips(trip, seq![other]).len() <= 1,
        (close_trips(trip, seq![other]).len() == 1) <==> (other.id != trip.trip_id && live_status(other.status@)
            && -300 < trip.scheduled_departure - other.scheduled_departure < 300),
        (headway_severity(gap(trip.scheduled_departure as int, other.scheduled_departure as int)) == Some("critical"@))
            <==> (-60 < trip.scheduled_departure - other.scheduled_departure < 60),
        (headway_severity(gap(trip.scheduled_departure as int, other.scheduled_departure as int)) == Some("warning"@))
            <==> (60 <= trip.scheduled_departure - other.scheduled_departure < 300
            || -300 < trip.scheduled_departure - other.scheduled_departure <= -60),
{
    reveal_strlit("critical");
    reveal_strlit("warning");
    assert("critical"@ != "warning"@) by { assert("critical"@.len() != "warning"@.len()); }
    assert(seq![other].drop_last() =~= Seq::<OtherTrip>::empty());
    assert(seq![other].last() == other);
    assert(close_trips(trip, Seq::<OtherTrip>::empty()) == Seq::<OtherTrip>::empty());
    if too_close(trip, other) {
        assert(close_trips(trip, seq![other]) == Seq::<OtherTrip>::empty().push(other));
    } else {
        assert(close_trips(trip, seq![other]) == Seq::<OtherTrip>::empty());
    }
}

/// Every trip listed as too close departs less than 300 seconds before or
/// after the checked trip, is live and is another trip.
pub proof fn law_close_trips_are_within_headway(trip: TripCheckInput, others: Seq<OtherTrip>)
    ensures
        forall|i: int| 0 <= i < close_trips(trip, others).len() ==> {
            let c = #[trigger] close_trips(trip, others)[i];
            &&& c.id != trip.trip_id
            &&& live_status(c.status@)
            &&& -300 < trip.scheduled_departure - c.scheduled_departure < 300
        },
    decreases others.len(),
{
    if others.len() > 0 {
        law_close_trips_are_within_headway(trip, others.drop_last());
        let rest = close_trips(trip, others.drop_last());
        assert forall|i: int| 0 <= i < close_trips(trip, others).len() implies {
            let c = #[trigger] close_trips(trip, others)[i];
            &&& c.id != trip.trip_id
            &&& live_status(c.status@)
            &&& -300 < trip.scheduled_departure - c.scheduled_departure < 300
        } by {
            if i < rest.len() {
                assert(close_trips(trip, others)[i] == rest[i]);
            }
        }
    }
}

/// Severity of a driverless trip departing in `mins_away` minutes.
pub fn approaching_severity(mins_away: i64) -> (r: &'static str)
    ensures
        r@ == (if mins_away < APPROACHING_CRITICAL_MINS { "critical"@ } else { "warning"@ }),
{
    if mins_away < APPROACHING_CRITICAL_MINS { "critical" } else { "warning" }
}

/// Whole minutes until a departure, never negative.
pub fn minutes_away(departure: i64, now: i64) -> (r: i64)
    ensures
        r == (if minutes_of(departure - now) < 0 { 0 } else { minutes_of(departure - now) }),
{
    let m = minutes_exec(departure as i128 - now as i128);
    if m < 0 { 0 } else { m as i64 }
}

/// The conflict of a trip without a driver that departs in `mins_away`
/// minutes.
pub fn approaching_conflict(trip_id: u128, trip_code: &str, mins_away: i64) -> (r: ConflictDetail)
    ensures
        r.conflict_type@ == "unassigned_approaching"@,
        r.trip_id_1 == trip_id,
        r.trip_id_2 is None,
        r.severity@ == (if mins_away < APPROACHING_CRITICAL_MINS { "critical"@ } else { "warning"@ }),
        r.description@ == "Trip "@ + trip_code@ + " has no assigned driver and departs in "@ + decimal_int(mins_away as int)
            + " minute(s) ("@ + r.severity@ + " severity)"@,
{
    let severity = approaching_severity(mins_away);
    let mut d: Vec<char> = Vec::new();
    push_str(&mut d, "Trip ");
    push_str(&mut d, trip_code);
    push_str(&mut d, " has no assigned driver and departs in ");
    let m = decimal_i64(mins_away);
    push_chars(&mut d, m.as_slice());
    push_str(&mut d, " minute(s) (");
    push_str(&mut d, severity);
    push_str(&mut d, " severity)");
    ConflictDetail {
        conflict_type: "unassigned_approaching",
        trip_id_1: trip_id,
        trip_id_1_code: string_of(chars_of(trip_code).as_slice()),
        trip_id_2: None,
        trip_id_2_code: None,
        description: string_of(d.as_slice()),
        severity,
    }
}

} // verus!
