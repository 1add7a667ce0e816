use transitops_backend::dispatcher::conflicts::{
    approaching_conflict, approaching_severity, classify_headway, driver_overlaps, headway_conflicts,
    intervals_overlap, minutes_away, OtherTrip, TripCheckInput, APPROACHING_CRITICAL_MINS,
};
use transitops_backend::dispatcher::lifecycle::{
    apply_trip_action, check_patch_times, review_conflict, ConflictStep, PatchTripRequest, TripAction, UpcomingQuery,
};

#[test]
fn overlap_formula_sanity() {
    let a_dep = 10i64;
    let a_arr = 50i64;
    let b_dep = 30i64;
    let b_arr = 70i64;
    assert!(a_dep < b_arr && a_arr > b_dep);
    assert!(intervals_overlap(a_dep, a_arr, b_dep, b_arr));
}

#[test]
fn no_overlap_formula_sanity() {
    let a_dep = 10i64;
    let a_arr = 20i64;
    let b_dep = 30i64;
    let b_arr = 40i64;
    assert!(!(a_dep < b_arr && a_arr > b_dep));
    assert!(!intervals_overlap(a_dep, a_arr, b_dep, b_arr));
}

#[test]
fn approaching_severity_threshold() {
    let mins_away = 8i64;
    let sev = if mins_away < APPROACHING_CRITICAL_MINS { "critical" } else { "warning" };
    assert_eq!(sev, "critical");
    assert_eq!(approaching_severity(mins_away), "critical");
    assert_eq!(approaching_severity(10), "warning");
}

fn trip() -> TripCheckInput {
    TripCheckInput {
        trip_id: 1,
        trip_code: "T001".into(),
        route_id: 9,
        assigned_driver_id: Some(5),
        scheduled_departure: 36_000,
        scheduled_arrival: 39_600,
    }
}

fn other(id: u128, code: &str, status: &str, dep: i64, arr: i64) -> OtherTrip {
    OtherTrip { id, trip_code: code.into(), status: status.into(), scheduled_departure: dep, scheduled_arrival: arr }
}

#[test]
fn driver_overlap_detection() {
    let others = vec![
        other(2, "T002", "published", 37_800, 41_400),
        other(3, "T003", "cancelled", 37_800, 41_400),
        other(4, "T004", "published", 39_600, 43_200),
        other(1, "T001", "published", 36_000, 39_600),
    ];
    let c = driver_overlaps(&trip(), &others);
    assert_eq!(c.len(), 1);
    assert_eq!(c[0].trip_id_2, Some(2));
    assert_eq!(c[0].severity, "critical");
    assert_eq!(c[0].description, "Driver is double-booked: trips 'T001' and 'T002' overlap by 30 minute(s) [10:30 → 11:00].");
}

#[test]
fn headway_detection() {
    assert_eq!(classify_headway(59), Some("critical"));
    assert_eq!(classify_headway(60), Some("warning"));
    assert_eq!(classify_headway(300), None);
    let others = vec![other(2, "T002", "draft", 36_030, 0), other(3, "T003", "draft", 36_200, 0), other(4, "T004", "draft", 36_300, 0)];
    let c = headway_conflicts(&trip(), &others);
    assert_eq!(c.len(), 2);
    assert_eq!(c[0].severity, "critical");
    assert_eq!(c[1].severity, "warning");
    assert_eq!(c[0].description, "Headway violation on route: trips 'T001' and 'T002' depart only 30s apart (minimum: 60s, recommended: 300s).");
}

#[test]
fn approaching_conflicts() {
    assert_eq!(minutes_away(1_000 + 9 * 60 + 59, 1_000), 9);
    assert_eq!(minutes_away(500, 1_000), 0);
    let c = approaching_conflict(7, "T7", 25);
    assert_eq!(c.severity, "warning");
    assert_eq!(c.description, "Trip T7 has no assigned driver and departs in 25 minute(s) (warning severity)");
}

#[test]
fn trip_lifecycle() {
    assert_eq!(apply_trip_action("published", TripAction::Start), Ok("in_progress".to_string()));
    assert_eq!(apply_trip_action("in_progress", TripAction::Complete), Ok("completed".to_string()));
    assert!(apply_trip_action("completed", TripAction::Cancel).is_err());
    assert_eq!(
        apply_trip_action("draft", TripAction::Complete),
        Err("Trip not found or is not currently in_progress".to_string())
    );
    assert_eq!(review_conflict("open", ConflictStep::Acknowledge), Ok("acknowledged"));
    assert!(review_conflict("resolved", ConflictStep::Resolve).is_err());
    let req = PatchTripRequest { scheduled_departure: Some(10), scheduled_arrival: Some(5), assigned_driver_id: None, note: None };
    assert!(check_patch_times(&req).is_err());
    assert_eq!(UpcomingQuery { window_minutes: None }.window(), 120);
    assert_eq!(UpcomingQuery { window_minutes: Some(1000) }.window(), 480);
}
