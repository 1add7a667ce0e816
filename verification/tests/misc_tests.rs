use transitops_backend::alerting::{
    alert_event_type, check_acknowledgeable, check_closable, reconciliation_alert, ListAlertsQuery,
    KPI_CHECK_INTERVAL_SECS,
};
use transitops_backend::config::{Config, ConfigError, EnvSettings};
use transitops_backend::crypto::CryptoError;
use transitops_backend::date::Date;
use transitops_backend::error::{from_crypto_error, AppError};

#[test]
fn kpi_check_interval_is_30_minutes() {
    assert_eq!(KPI_CHECK_INTERVAL_SECS, 30 * 60);
}

#[test]
fn deviation_threshold_logic() {
    let threshold_pct = 25.0_f64;
    let dev_warning = 30.0_f64;
    let dev_critical = 51.0_f64;
    let sev_w = if dev_warning > threshold_pct * 2.0 { "critical" } else { "warning" };
    let sev_c = if dev_critical > threshold_pct * 2.0 { "critical" } else { "warning" };
    assert_eq!(sev_w, "warning");
    assert_eq!(sev_c, "critical");
}

#[test]
fn reconciliation_alert_text() {
    assert!(reconciliation_alert(Date { year: 2025, month: 1, day: 5 }, 0, 0, 0, 0, 0, false).is_none());
    let a = reconciliation_alert(Date { year: 2025, month: 1, day: 5 }, 4, 2, 1, 1, 0, true).unwrap();
    assert_eq!(a.severity, "critical");
    assert_eq!(a.title, "Reconciliation mismatch — 2025-01-05");
    assert_eq!(
        a.description,
        "4 discrepancies: 2 amount mismatches, 1 missing from statement, 1 extra in statement, 0 duplicates"
    );
    assert_eq!(alert_event_type("kpi_anomaly"), Some("alerts.anomaly.kpi_deviation"));
    assert_eq!(alert_event_type("other"), None);
}

#[test]
fn alert_query_and_states() {
    let q = ListAlertsQuery { status: Some("weird".into()), severity: None, alert_type: None, limit: Some(999), offset: Some(-1) };
    assert_eq!(q.validate(), Err("Invalid status 'weird'; must be one of: open, acknowledged, closed".to_string()));
    assert_eq!(q.effective_limit(), 200);
    assert_eq!(q.effective_offset(), 0);
    assert_eq!(
        check_acknowledgeable("closed"),
        Err("Alert cannot be acknowledged from status 'closed' (must be open)".to_string())
    );
    assert_eq!(check_closable("closed"), Err("Alert is already closed".to_string()));
}

fn env(port: Option<&str>) -> EnvSettings {
    EnvSettings {
        database_url: Some("postgres://x".into()),
        server_host: None,
        server_port: port.map(|p| p.to_string()),
        encryption_key: Some("00".repeat(32)),
        encryption_key_previous: None,
        email_relay_url: None,
        email_from_address: None,
        sms_gateway_url: None,
        wecom_webhook_url: None,
    }
}

#[test]
fn configuration_defaults() {
    let c: Config = Config::from_settings(env(None)).unwrap();
    assert_eq!(c.server_host, "127.0.0.1");
    assert_eq!(c.server_port, 8081);
    assert_eq!(c.email_from_addr, "noreply@transitops.local");
    assert_eq!(c.lockout_threshold, 5);
    assert_eq!(Config::from_settings(env(Some("9000"))).unwrap().server_port, 9000);
    assert_eq!(
        Config::from_settings(env(Some("70000"))).unwrap_err(),
        ConfigError::Invalid("SERVER_PORT must be a valid port number".into())
    );
    let mut e = env(None);
    e.database_url = None;
    assert_eq!(Config::from_settings(e).unwrap_err(), ConfigError::Missing("DATABASE_URL must be set".into()));
}

#[test]
fn error_codes_and_messages() {
    let e = AppError::NotFound("Trip 1".into());
    assert_eq!(e.status_code(), 404);
    assert_eq!(e.error_code(), "NOT_FOUND");
    assert_eq!(e.message(), "Not found: Trip 1");
    assert_eq!(AppError::Database("boom".into()).message(), "Database error");
    assert_eq!(AppError::AccountLocked("x".into()).status_code(), 429);
    assert_eq!(from_crypto_error(CryptoError::DecryptFailed), AppError::Internal("Cryptographic operation failed".into()));
}
