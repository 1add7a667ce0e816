use transitops_backend::reporting::metrics::{
    check_builtin_update, check_compute_request, check_exportable, check_formula_type, check_schedule, export_format,
    granularity_interval, unit_for_formula, ExportQuery,
};
use transitops_backend::reporting::scheduler::{next_run_at, report_window, DefinitionOutcome, ReportRun, RunAction, DAY_SECS};

const BASE: i64 = 1_740_787_200; // 2025-03-01T00:00:00Z

#[test]
fn granularity_intervals_are_correct() {
    assert_eq!(granularity_interval("hour"), "1 hour");
    assert_eq!(granularity_interval("day"), "1 day");
    assert_eq!(granularity_interval("week"), "1 week");
    assert_eq!(granularity_interval("month"), "1 month");
    assert_eq!(granularity_interval("other"), "1 day");
}

#[test]
fn units_of_formulas() {
    assert_eq!(unit_for_formula("refund_rate"), "%");
    assert_eq!(unit_for_formula("reconciliation_mismatch_count"), "transactions");
    assert_eq!(unit_for_formula("custom_sql"), "");
}

#[test]
fn next_run_daily() {
    assert_eq!(next_run_at("daily", BASE), BASE + DAY_SECS);
}

#[test]
fn next_run_weekly() {
    assert_eq!(next_run_at("weekly", BASE), BASE + 7 * DAY_SECS);
}

#[test]
fn next_run_monthly() {
    assert_eq!(next_run_at("monthly", BASE), BASE + 30 * DAY_SECS);
}

#[test]
fn next_run_unknown_defaults_to_daily() {
    assert_eq!(next_run_at("unknown", BASE), next_run_at("daily", BASE));
}

#[test]
fn reporting_request_checks() {
    assert!(check_formula_type("custom_sql").is_ok());
    assert!(check_formula_type("x").is_err());
    assert!(check_builtin_update(true, false, true).is_err());
    assert!(check_builtin_update(false, true, true).is_ok());
    assert_eq!(check_compute_request(0, 1, 2, None), Err("metric_ids must not be empty".to_string()));
    assert_eq!(check_compute_request(1, 2, 2, None), Err("date_from must be before date_to".to_string()));
    assert_eq!(check_compute_request(1, 1, 2, None), Ok("day".to_string()));
    assert!(check_compute_request(1, 1, 2, Some("year")).is_err());
    assert!(check_schedule("hourly").is_err());
    assert_eq!(check_exportable("running"), Err("run is not completed (status: running)".to_string()));
    assert_eq!(export_format(&ExportQuery { format: None }, "pdf"), "pdf");
    assert_eq!(report_window(BASE, 30), (BASE - 30 * DAY_SECS, BASE));
}

#[test]
fn report_run_machine() {
    let mut run = ReportRun::new(vec![11, 12, 13]);
    assert_eq!(run.next_action(), RunAction::LoadDefinition(11));
    assert_eq!(run.on_definition(DefinitionOutcome::Found), RunAction::Compute(11));
    assert_eq!(run.on_computed(true), RunAction::LoadDefinition(12));
    assert_eq!(run.on_definition(DefinitionOutcome::Missing), RunAction::LoadDefinition(13));
    assert_eq!(run.on_definition(DefinitionOutcome::Found), RunAction::Compute(13));
    assert_eq!(run.on_computed(true), RunAction::StoreCompleted);
    let mut run = ReportRun::new(vec![1]);
    assert_eq!(run.on_definition(DefinitionOutcome::LoadError), RunAction::StoreFailed);
    assert_eq!(run.next_action(), RunAction::StoreFailed);
}
