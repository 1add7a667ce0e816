use transitops_backend::date::Date;
use transitops_backend::error::AppError;
use transitops_backend::json::Json;
use transitops_backend::payments::gateway::{
    check_gateway_secret, gateway_error_to_app, is_placeholder_secret, CallbackStatus, DbGateway, GatewayConfig,
    GatewayError, OfflineGateway, PaymentGateway,
};
use transitops_backend::payments::import::{
    import_completion, import_format_for, line_match_status, parse_csv, parse_json_entries, JsonImportEntry,
};
use transitops_backend::payments::policy::{
    advance_refund, callback_transaction_ref, callback_transaction_status, check_import_format, check_payment_method,
    check_refundable, check_simulated_status, compensation_sweeps, parse_timestamp_header, required_header,
    stuck_transaction_status, transaction_currency, RefundStep, SWEEP_INTERVAL_SECS,
};
use transitops_backend::payments::signature::{
    build_signed_string, check_callback, check_timestamp_window, constant_time_eq, hmac_sha256_hex, hmac_sha512_hex,
    sha256_hex, validate_timestamp, verify_error_to_app, ReplayError, VerifyError,
};

#[test]
fn hmac_sha256_is_deterministic() {
    let sig1 = hmac_sha256_hex(b"secret", b"hello");
    let sig2 = hmac_sha256_hex(b"secret", b"hello");
    assert_eq!(sig1, sig2);
}

#[test]
fn hmac_sha256_differs_with_different_key() {
    let sig1 = hmac_sha256_hex(b"key1", b"hello");
    let sig2 = hmac_sha256_hex(b"key2", b"hello");
    assert_ne!(sig1, sig2);
}

#[test]
fn hmac_known_values() {
    // RFC 4231 test case 2.
    assert_eq!(
        hmac_sha256_hex(b"Jefe", b"what do ya want for nothing?"),
        "5bdcc146bf60754e6a042426089575c75a003f089d2739839dec58b964ec3843"
    );
    assert_eq!(hmac_sha512_hex(b"Jefe", b"what do ya want for nothing?").len(), 128);
}

#[test]
fn signed_string_includes_timestamp() {
    let s = build_signed_string("nonce123", 1700000000, b"body", true);
    assert!(s.starts_with("nonce123.1700000000."));
}

#[test]
fn signed_string_omits_timestamp_when_flag_false() {
    let s = build_signed_string("nonce123", 1700000000, b"body", false);
    assert!(s.starts_with("nonce123."));
    assert!(!s.contains("1700000000"));
    assert_eq!(s, format!("nonce123.{}", sha256_hex(b"body")));
}

#[test]
fn validate_timestamp_accepts_recent() {
    let now = chrono::Utc::now().timestamp();
    assert!(validate_timestamp(now).is_ok());
    assert!(validate_timestamp(now - 100).is_ok());
    assert!(validate_timestamp(now + 100).is_ok());
}

#[test]
fn validate_timestamp_rejects_stale() {
    let now = chrono::Utc::now().timestamp();
    let err = validate_timestamp(now - 400).unwrap_err();
    assert!(matches!(err, ReplayError::TimestampStale(_)));
}

#[test]
fn validate_timestamp_rejects_future() {
    let now = chrono::Utc::now().timestamp();
    let err = validate_timestamp(now + 400).unwrap_err();
    assert!(matches!(err, ReplayError::TimestampStale(_)));
}

#[test]
fn timestamp_window_bounds() {
    assert_eq!(check_timestamp_window(1000, 1300), Ok(()));
    assert_eq!(check_timestamp_window(1000, 1301), Err(ReplayError::TimestampStale(301)));
    assert_eq!(
        ReplayError::TimestampStale(301).message(),
        "Timestamp out of window: 301 seconds from now (max 300)"
    );
    assert_eq!(ReplayError::NonceReused("n1".into()).message(), "Nonce 'n1' has already been used");
}

#[test]
fn constant_time_eq_works() {
    assert!(constant_time_eq(b"hello", b"hello"));
    assert!(!constant_time_eq(b"hello", b"world"));
    assert!(!constant_time_eq(b"hello", b"hi"));
}

#[test]
fn sha256_hex_is_correct() {
    let h = sha256_hex(b"");
    assert_eq!(&h[..8], "e3b0c442");
}

#[test]
fn sha256_hex_known_value() {
    let h = sha256_hex(b"abc");
    assert!(h.starts_with("ba7816bf"));
}

#[test]
fn callback_checks_in_order() {
    let gw = OfflineGateway::new("a-very-long-shared-secret".to_string());
    let body = b"{\"status\":\"SUCCESS\"}";
    let signed = build_signed_string("n1", 1000, body, true);
    let sig = hmac_sha256_hex(b"a-very-long-shared-secret", signed.as_bytes());
    assert_eq!(check_callback(&gw, body, "n1", 1000, &sig, false, 1100), Ok(()));
    assert_eq!(check_callback(&gw, body, "n1", 1000, "bad", false, 1100), Err(VerifyError::BadSignature));
    assert_eq!(
        check_callback(&gw, body, "n1", 1000, &sig, true, 1100),
        Err(VerifyError::Replay(ReplayError::NonceReused("n1".into())))
    );
    assert_eq!(
        check_callback(&gw, body, "n1", 1000, &sig, true, 2000),
        Err(VerifyError::Replay(ReplayError::TimestampStale(1000)))
    );
}

#[test]
fn offline_gateway_fields() {
    let gw = OfflineGateway::new("test_secret".to_string());
    assert_eq!(gw.name(), "offline_test");
    assert_eq!(gw.hmac_algorithm(), "sha256");
    assert_eq!(gw.hmac_secret_bytes(), b"test_secret");
    assert!(gw.ts_in_sig());
}

#[test]
fn gateway_error_converts_to_app_error() {
    let e: AppError = gateway_error_to_app(GatewayError::BadSignature);
    assert!(matches!(e, AppError::Unauthorized(_)));
    let e: AppError = gateway_error_to_app(GatewayError::Replay);
    assert!(matches!(e, AppError::BadRequest(_)));
}

fn config(secret: &str) -> GatewayConfig {
    GatewayConfig {
        id: 1,
        name: "alipay".into(),
        display_name: "Alipay".into(),
        hmac_secret: secret.into(),
        hmac_algorithm: "sha512".into(),
        sig_header: "X-Sig".into(),
        nonce_header: "X-Nonce".into(),
        ts_header: "X-Ts".into(),
        ts_in_sig: false,
        amount: 0,
        created_at: 0,
        updated_at: 0,
    }
}

#[test]
fn placeholder_secrets_are_refused() {
    assert!(is_placeholder_secret("changeme"));
    assert!(is_placeholder_secret("short"));
    assert!(is_placeholder_secret("CHANGE_ME_IN_PRODUCTION"));
    assert!(!is_placeholder_secret("0123456789abcdef-strong"));
    assert!(matches!(check_gateway_secret(config("password")), Err(GatewayError::BadPayload(_))));
    let gw = check_gateway_secret(config("0123456789abcdef-strong")).unwrap();
    assert_eq!(gw.hmac_algorithm(), "sha512");
    let _ = DbGateway::new(config("x"));
    assert_ne!(CallbackStatus::Processed, CallbackStatus::Replayed);
}

#[test]
fn sweep_interval_is_15_minutes() {
    assert_eq!(SWEEP_INTERVAL_SECS, 15 * 60);
    assert_eq!(compensation_sweeps(), vec!["stuck_transactions", "pending_refunds", "callback_retry"]);
}

#[test]
fn parse_csv_basic() {
    let csv = b"ref,amount,date,description\nTXN001,100.50,2025-01-15,Bus fare\nTXN002,200.00,2025-01-16,\n";
    let lines = parse_csv(csv).unwrap();
    assert_eq!(lines.len(), 2);
    assert_eq!(lines[0].transaction_ref.as_deref(), Some("TXN001"));
    assert_eq!(lines[0].amount, 100_500_000);
    assert_eq!(lines[0].transaction_date, Date { year: 2025, month: 1, day: 15 });
    assert_eq!(lines[0].description.as_deref(), Some("Bus fare"));
    assert_eq!(lines[1].description, None);
}

#[test]
fn parse_csv_skips_invalid_rows() {
    let csv = b"ref,amount,date\nTXN001,not_a_number,2025-01-15\nTXN002,50.00,bad_date\nTXN003,75.00,2025-01-17\n";
    let lines = parse_csv(csv).unwrap();
    assert_eq!(lines.len(), 1);
    assert_eq!(lines[0].transaction_ref.as_deref(), Some("TXN003"));
}

#[test]
fn parse_csv_comma_in_amount() {
    let csv = b"ref,amount,date\nTXN001,\"1,234.56\",2025-01-15\n";
    let lines = parse_csv(csv).unwrap();
    assert_eq!(lines.len(), 1);
    assert_eq!(lines[0].amount, 1_234_560_000);
}

#[test]
fn parse_csv_other_date_forms_and_missing_columns() {
    let csv = b"ref,amount,date\nA,1,15/01/2025\nB,2,01/31/2025\n";
    let lines = parse_csv(csv).unwrap();
    assert_eq!(lines[0].transaction_date, Date { year: 2025, month: 1, day: 15 });
    assert_eq!(lines[1].transaction_date, Date { year: 2025, month: 1, day: 31 });
    assert_eq!(parse_csv(b"ref,date\nA,2025-01-01\n").unwrap_err(), "CSV missing 'amount' column");
    assert_eq!(parse_csv(b"ref,amount\nA,1\n").unwrap_err(), "CSV missing 'date' column");
}

#[test]
fn parse_json_basic() {
    let entries = vec![JsonImportEntry {
        transaction_ref: Some("TXN001".into()),
        amount: 99_990_000,
        date: "2025-02-01".into(),
        description: Some("Ticket".into()),
    }];
    let lines = parse_json_entries(entries).unwrap();
    assert_eq!(lines.len(), 1);
    assert_eq!(lines[0].transaction_ref.as_deref(), Some("TXN001"));
    assert_eq!(lines[0].amount, 99_990_000);
}

#[test]
fn parse_json_bad_date_errors() {
    let entries = vec![JsonImportEntry { transaction_ref: None, amount: 50_000_000, date: "not-a-date".into(), description: None }];
    assert_eq!(parse_json_entries(entries).unwrap_err(), "row 1: invalid date 'not-a-date'");
}

#[test]
fn import_bookkeeping() {
    assert_eq!(import_format_for("march.json"), "json");
    assert_eq!(import_format_for("march.csv"), "csv");
    assert_eq!(line_match_status(true), "matched");
    assert_eq!(import_completion(10, 0), ("completed", 10));
    assert_eq!(import_completion(10, 3), ("failed", 7));
}

fn obj(entries: Vec<(&str, Json)>) -> Json {
    let mut e: Vec<(String, Json)> = entries.into_iter().map(|(k, v)| (k.to_string(), v)).collect();
    e.sort_by(|a, b| a.0.cmp(&b.0));
    Json::Object(e)
}

#[test]
fn handler_policies() {
    assert!(check_payment_method("card").is_ok());
    assert_eq!(
        check_payment_method("gold"),
        Err("payment_method must be one of: cash, card, mobile, bank_transfer, voucher, other".to_string())
    );
    assert_eq!(transaction_currency(None), "CNY");
    assert_eq!(required_header(None, "X-Nonce"), Err("Missing required header: X-Nonce".to_string()));
    assert_eq!(parse_timestamp_header("+1700000000"), Ok(1_700_000_000));
    assert_eq!(parse_timestamp_header("-5"), Ok(-5));
    assert!(parse_timestamp_header("12a").is_err());
    assert!(parse_timestamp_header("99999999999999999999").is_err());
    let p = obj(vec![("out_trade_no", Json::Str("T-9".into()))]);
    assert_eq!(callback_transaction_ref(&p), Some("T-9"));
    let p = obj(vec![("transaction_ref", Json::PosInt(5)), ("out_trade_no", Json::Str("T-9".into()))]);
    assert_eq!(callback_transaction_ref(&p), None);
    assert_eq!(callback_transaction_status("failed: timeout"), Some("failed"));
    assert_eq!(callback_transaction_status("Success"), Some("completed"));
    assert_eq!(callback_transaction_status("paid"), Some("completed"));
    assert_eq!(callback_transaction_status("pending"), None);
    assert!(check_simulated_status("failed").is_ok());
    assert!(check_import_format("xml").is_err());
    assert!(check_refundable("partially_refunded").is_ok());
    assert_eq!(
        check_refundable("pending"),
        Err("Transaction status 'pending' is not refundable (must be completed or partially_refunded)".to_string())
    );
    assert_eq!(advance_refund("pending", RefundStep::Approve), Ok("approved"));
    assert_eq!(advance_refund("approved", RefundStep::Process), Ok("completed"));
    assert_eq!(
        advance_refund("approved", RefundStep::Approve),
        Err("Refund cannot be approved from status 'approved'".to_string())
    );
    assert_eq!(stuck_transaction_status(Some("fail")), "failed");
    assert_eq!(stuck_transaction_status(None), "completed");
}

#[test]
fn verify_errors_map_to_answers() {
    assert_eq!(
        verify_error_to_app(VerifyError::Replay(ReplayError::NonceReused("n-1".to_string()))),
        AppError::BadRequest("Replay detected: Nonce 'n-1' has already been used".to_string())
    );
    assert_eq!(
        verify_error_to_app(VerifyError::Replay(ReplayError::TimestampStale(-400))),
        AppError::BadRequest("Replay detected: Timestamp out of window: -400 seconds from now (max 300)".to_string())
    );
    assert_eq!(
        verify_error_to_app(VerifyError::BadSignature),
        AppError::Unauthorized("Callback signature verification failed".to_string())
    );
}
