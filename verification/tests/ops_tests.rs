use transitops_backend::error::AppError;
use transitops_backend::json::Json;
use transitops_backend::ops::config::{check_schedule_window, merge_payload};
use transitops_backend::ops::models::{
    check_calendar_days, check_future, check_route_editable, check_route_names, check_trip_editable, check_trip_times,
    initial_route_status, ListQuery, OkResponse,
};
use transitops_backend::ops::rollout::{
    activate_stage, check_version_published, total_depots, validate_rollout_stages, PlanStatus, RolloutProgress,
    RolloutStageSpec,
};

fn obj(entries: Vec<(&str, Json)>) -> Json {
    let mut e: Vec<(String, Json)> = entries.into_iter().map(|(k, v)| (k.to_string(), v)).collect();
    e.sort_by(|a, b| a.0.cmp(&b.0));
    Json::Object(e)
}

fn get_int(v: &Json, key: &str) -> Option<i64> {
    v.get(key).and_then(|x| x.as_i64())
}

#[test]
fn list_query_paging() {
    let q = ListQuery { status: None, search: None, page: Some(3), per_page: Some(500) };
    assert_eq!(q.limit(), 100);
    assert_eq!(q.offset(), 200);
    let q = ListQuery { status: None, search: None, page: Some(-2), per_page: None };
    assert_eq!(q.limit(), 20);
    assert_eq!(q.offset(), 0);
    let _ = OkResponse { message: "ok" };
}

#[test]
fn route_and_trip_checks() {
    assert!(check_route_names(" ", "n").is_err());
    assert!(check_route_names("R1", "Main").is_ok());
    assert_eq!(initial_route_status(Some(200), 100), "scheduled");
    assert_eq!(initial_route_status(Some(50), 100), "draft");
    assert_eq!(check_future(100, 100), Err("effective_from must be in the future".to_string()));
    assert!(check_route_editable("active").is_err());
    assert!(check_trip_times(10, 10).is_err());
    assert!(check_trip_editable("completed").is_err());
    assert!(check_trip_editable("draft").is_ok());
    assert!(check_calendar_days(&vec![]).is_err());
    assert_eq!(check_schedule_window(200, Some(150), 100), Err("effective_to must be after effective_from".to_string()));
    assert_eq!(check_schedule_window(200, Some(250), 100), Ok(()));
}

#[test]
fn merge_overrides_win() {
    let base = obj(vec![("a", Json::PosInt(1)), ("b", Json::PosInt(2))]);
    let over = obj(vec![("b", Json::PosInt(20)), ("c", Json::PosInt(30))]);
    let merged = merge_payload(Some(base), over);
    assert_eq!(get_int(&merged, "a"), Some(1));
    assert_eq!(get_int(&merged, "b"), Some(20));
    assert_eq!(get_int(&merged, "c"), Some(30));
    let merged = merge_payload(None, obj(vec![("x", Json::PosInt(1))]));
    assert_eq!(get_int(&merged, "x"), Some(1));
    let merged = merge_payload(Some(Json::PosInt(9)), obj(vec![("x", Json::PosInt(1))]));
    assert_eq!(merged.as_i64(), Some(9));
}

fn stage(pct: i16, depots: Vec<u128>) -> RolloutStageSpec {
    RolloutStageSpec { target_percentage: pct, depot_ids: depots, scheduled_at: None }
}

#[test]
fn rollout_stage_validation() {
    assert_eq!(validate_rollout_stages(&vec![]), Err("At least one stage is required".to_string()));
    assert_eq!(validate_rollout_stages(&vec![stage(10, vec![1]), stage(50, vec![])]), Err("Stage 2 has no depot_ids".to_string()));
    assert_eq!(
        validate_rollout_stages(&vec![stage(50, vec![1]), stage(50, vec![2])]),
        Err("Stages must have strictly increasing target_percentage values".to_string())
    );
    let stages = vec![stage(25, vec![1, 2]), stage(100, vec![3])];
    assert!(validate_rollout_stages(&stages).is_ok());
    assert_eq!(total_depots(&stages), 3);
    assert!(check_version_published(Some("published")).is_ok());
    assert!(matches!(check_version_published(Some("draft")), Err(AppError::BadRequest(_))));
    assert!(matches!(check_version_published(None), Err(AppError::NotFound(_))));
}

#[test]
fn rollout_activation_is_sequential() {
    let p = RolloutProgress { current_stage: 0, total_stages: 2 };
    let (p, s) = activate_stage(p, "pending", 1).unwrap();
    assert_eq!(s, PlanStatus::Active);
    assert_eq!(activate_stage(p, "pending", 1), Err("Must activate stage 2 before stage 1".to_string()));
    assert_eq!(activate_stage(p, "active", 2), Err("Stage is already active".to_string()));
    let (p, s) = activate_stage(p, "pending", 2).unwrap();
    assert_eq!(s.as_str(), "completed");
    assert_eq!(p.current_stage, 2);
}

#[test]
fn only_the_next_stage_is_ever_activated() {
    let mut p = RolloutProgress { current_stage: 0, total_stages: 3 };
    let mut activated = Vec::new();
    for n in [3i16, 2, 1, 1, 3, 2, 4, 3] {
        if let Ok((next, _)) = activate_stage(p, "pending", n) {
            p = next;
            activated.push(n);
        }
    }
    assert_eq!(activated, vec![1, 2, 3]);
    assert_eq!(p.current_stage, 3);
}
