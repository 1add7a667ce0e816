use transitops_backend::json::Json;
use transitops_backend::notifications::adapters::{
    build_markdown, derive_title_body, email_subject, sms_message, truncate_sms, wecom_reply_error, AdapterError,
    AdapterRegistry, ChannelAdapter, EmailAdapter, NotificationAdapter, OutboundNotification, SmsAdapter, WeComAdapter, SMS_MAX_LEN,
};
use transitops_backend::notifications::bus::{
    delivery_targets,
    announcement_roles, channel_address_for, is_in_dnd_window, recipient_action, FanOut, TimeOfDay,
};
use transitops_backend::notifications::models::{
    check_channel, check_channel_address, check_event_types, check_rule_name, check_severity_override,
    delivery_status_filter, effective_cooldown, AnnounceRequest,
};
use transitops_backend::notifications::rules::{
    alert_is_queued, is_in_cooldown, matches_keyword, matches_topic, rule_match_description, rule_severity,
    threshold_triggered, validate_rule_config,
};

fn s(v: &str) -> Json {
    Json::Str(v.to_string())
}

fn arr(items: Vec<Json>) -> Json {
    Json::Array(items)
}

fn obj(entries: Vec<(&str, Json)>) -> Json {
    let mut e: Vec<(String, Json)> = entries.into_iter().map(|(k, v)| (k.to_string(), v)).collect();
    e.sort_by(|a, b| a.0.cmp(&b.0));
    Json::Object(e)
}

fn float(x: f64) -> Json {
    Json::Float(x.to_bits())
}

#[test]
fn keyword_any_match() {
    let config = obj(vec![("keywords", arr(vec![s("conflict"), s("cancelled")]))]);
    let payload = r#"{"reason":"route conflict"}"#;
    assert!(matches_keyword("ops.trip.modified", payload, &config));
}

#[test]
fn keyword_all_no_match() {
    let config = obj(vec![("keywords", arr(vec![s("conflict"), s("cancelled")])), ("match_mode", s("all"))]);
    let payload = r#"{"reason":"conflict detected"}"#;
    assert!(!matches_keyword("ops.trip.modified", payload, &config));
}

#[test]
fn keyword_all_match() {
    let config = obj(vec![("keywords", arr(vec![s("conflict"), s("trip")])), ("match_mode", s("all"))]);
    let payload = r#"{"type":"conflict"}"#;
    assert!(matches_keyword("ops.trip.modified", payload, &config));
}

#[test]
fn keyword_match_ignores_case() {
    let config = obj(vec![("keywords", arr(vec![s("EMERGENCY")]))]);
    assert!(matches_keyword("sys.alert", r#"{"note":"Emergency stop"}"#, &config));
    assert!(!matches_keyword("sys.alert", r#"{}"#, &obj(vec![])));
}

#[test]
fn topic_glob_match() {
    let config = obj(vec![("pattern", s("ops.trip.*"))]);
    assert!(matches_topic("ops.trip.modified", &config));
    assert!(matches_topic("ops.trip.cancelled", &config));
    assert!(!matches_topic("ops.request.submitted", &config));
}

#[test]
fn topic_exact_match() {
    let config = obj(vec![("pattern", s("ops.trip.cancelled"))]);
    assert!(matches_topic("ops.trip.cancelled", &config));
    assert!(!matches_topic("ops.trip.modified", &config));
}

#[test]
fn topic_prefix_list() {
    let config = obj(vec![("topics", arr(vec![s("ops.trip"), s("sys")]))]);
    assert!(matches_topic("ops.trip.started", &config));
    assert!(matches_topic("sys.announcement", &config));
    assert!(!matches_topic("ops.request.approved", &config));
}

#[test]
fn threshold_operators() {
    assert!(threshold_triggered(5, 3, ">"));
    assert!(!threshold_triggered(3, 3, ">"));
    assert!(threshold_triggered(3, 3, ">="));
    assert!(threshold_triggered(3, 3, "=="));
    assert!(!threshold_triggered(4, 3, "=="));
    assert!(threshold_triggered(2, 3, "<"));
    assert!(!threshold_triggered(2, 3, "!="));
}

#[test]
fn validate_keyword_config_ok() {
    let cfg = obj(vec![("keywords", arr(vec![s("emergency")])), ("match_mode", s("any"))]);
    assert!(validate_rule_config("keyword", &cfg).is_ok());
}

#[test]
fn validate_keyword_config_missing() {
    assert!(validate_rule_config("keyword", &obj(vec![])).is_err());
}

#[test]
fn validate_spike_invalid_direction() {
    let cfg = obj(vec![("metric", s("conflict_rate")), ("threshold_pct", float(50.0)), ("direction", s("sideways"))]);
    assert!(validate_rule_config("spike", &cfg).is_err());
}

#[test]
fn validate_rule_config_messages() {
    assert_eq!(
        validate_rule_config("keyword", &obj(vec![("keywords", arr(vec![]))])),
        Err("'keywords' must not be empty".to_string())
    );
    assert_eq!(
        validate_rule_config("keyword", &obj(vec![("keywords", arr(vec![Json::PosInt(3)]))])),
        Err("'keywords' must all be strings".to_string())
    );
    assert_eq!(
        validate_rule_config("topic", &obj(vec![])),
        Err("'pattern' (string) or non-empty 'topics' (array of strings) is required".to_string())
    );
    assert_eq!(
        validate_rule_config("entity_threshold", &obj(vec![("metric", s("x"))])),
        Err("'metric' must be one of: open_conflicts, unassigned_trips, active_trips".to_string())
    );
    assert_eq!(
        validate_rule_config(
            "entity_threshold",
            &obj(vec![("metric", s("open_conflicts")), ("threshold", Json::PosInt(3)), ("operator", s("!="))])
        ),
        Err("'operator' must be one of: >, >=, ==, <=, <".to_string())
    );
    assert_eq!(
        validate_rule_config(
            "entity_threshold",
            &obj(vec![
                ("metric", s("open_conflicts")),
                ("threshold", Json::PosInt(3)),
                ("operator", s(">=")),
                ("entity_id", s("not-a-uuid")),
            ])
        ),
        Err("'entity_id' is not a valid UUID".to_string())
    );
    assert!(validate_rule_config(
        "entity_threshold",
        &obj(vec![
            ("metric", s("open_conflicts")),
            ("threshold", Json::PosInt(3)),
            ("operator", s(">=")),
            ("entity_id", s("67e55044-10b1-426f-9247-bb680e5fe0c8")),
        ])
    )
    .is_ok());
    assert_eq!(
        validate_rule_config("spike", &obj(vec![("metric", s("conflict_rate")), ("threshold_pct", float(-1.0))])),
        Err("'threshold_pct' must be > 0".to_string())
    );
    assert_eq!(validate_rule_config("weird", &obj(vec![])), Err("Unknown rule_type: 'weird'".to_string()));
}

#[test]
fn cooldown_and_severity() {
    assert!(is_in_cooldown(Some(1_000), 1_000 + 14 * 60, 15));
    assert!(!is_in_cooldown(Some(1_000), 1_000 + 15 * 60, 15));
    assert!(!is_in_cooldown(None, 0, 15));
    assert_eq!(rule_severity(None), "warning");
    assert!(alert_is_queued("warning", true));
    assert!(!alert_is_queued("critical", true));
    assert_eq!(
        rule_match_description("topic", "ops.trip.modified", None),
        "topic rule matched event 'ops.trip.modified' (entity: —)"
    );
}

fn notif(severity: &str, address: &str) -> OutboundNotification {
    OutboundNotification {
        event_type: "ops.trip.conflict_detected".into(),
        severity: severity.into(),
        title: "Trip conflict".into(),
        body: "Trip T-42 conflicts with T-55.".into(),
        recipient_id: 0,
        channel_address: address.into(),
    }
}

#[test]
fn truncate_short_message_unchanged() {
    let short = "Hello";
    assert_eq!(truncate_sms(short), short);
}

#[test]
fn truncate_long_message_appends_ellipsis() {
    let long = "A".repeat(200);
    let result = truncate_sms(&long);
    let count: usize = result.chars().count();
    assert_eq!(count, SMS_MAX_LEN);
    assert!(result.ends_with('…'));
}

#[test]
fn critical_uses_colour_tag() {
    let md = build_markdown(&notif("critical", ""));
    assert!(md.contains("<font color=\"info\">"));
}

#[test]
fn warning_uses_warning_tag() {
    let md = build_markdown(&notif("warning", ""));
    assert!(md.contains("<font color=\"warning\">"));
}

#[test]
fn mention_appended_when_address_set() {
    let md = build_markdown(&notif("info", "wangfang"));
    assert!(md.contains("<@wangfang>"));
    assert_eq!(md, "### Trip conflict\nTrip T-42 conflicts with T-55.\n<@wangfang>");
}

#[test]
fn no_mention_when_address_empty() {
    let md = build_markdown(&notif("info", ""));
    assert!(!md.contains("<@"));
}

#[test]
fn channel_texts() {
    assert_eq!(sms_message(&notif("critical", "+86")), "[CRITICAL] Trip T-42 conflicts with T-55.");
    assert_eq!(email_subject(&notif("warning", "a@b")), "[WARNING] Trip conflict");
    let reply = obj(vec![("errcode", Json::PosInt(93000)), ("errmsg", s("invalid webhook"))]);
    assert_eq!(wecom_reply_error(&reply), Some("WeCom API error: invalid webhook".to_string()));
    assert_eq!(wecom_reply_error(&obj(vec![("errcode", Json::PosInt(0))])), None);
    assert_eq!(AdapterError::NotConfigured.message(), "adapter not configured — connector URL not set");
    assert!(!SmsAdapter::new(None).is_available());
    assert!(EmailAdapter::new(Some("http://relay".into()), "x@y".into()).is_available());
    assert_eq!(WeComAdapter::new(None).channel(), "wecom");
}

#[test]
fn registry_reports_any_available_adapter() {
    let none = AdapterRegistry::new(vec![SmsAdapter::new(None), SmsAdapter::new(None)]);
    assert!(!none.any_available());
    assert_eq!(none.all().len(), 2);
    let one = AdapterRegistry::new(vec![SmsAdapter::new(None), SmsAdapter::new(Some("http://sms".into()))]);
    assert!(one.any_available());
    assert_eq!(one.all()[1].channel(), "sms");
    let empty: AdapterRegistry<WeComAdapter> = AdapterRegistry::new(vec![]);
    assert!(!empty.any_available());
}

#[test]
fn title_and_body_from_payload() {
    let payload = obj(vec![("title", s("Heads up")), ("description", s("Details"))]);
    assert_eq!(derive_title_body("x.y", "info", &payload), ("Heads up".to_string(), "Details".to_string()));
    assert_eq!(
        derive_title_body("x.y", "info", &obj(vec![])),
        ("x.y".to_string(), "Event x.y triggered (severity: info).".to_string())
    );
}

#[test]
fn dnd_windows() {
    let t = |h: u32| TimeOfDay { secs: h * 3600, nanos: 0 };
    assert!(!is_in_dnd_window(false, None, None, t(3)));
    assert!(is_in_dnd_window(true, None, None, t(3)));
    assert!(is_in_dnd_window(true, Some(t(8)), Some(t(18)), t(12)));
    assert!(!is_in_dnd_window(true, Some(t(8)), Some(t(18)), t(20)));
    assert!(is_in_dnd_window(true, Some(t(22)), Some(t(7)), t(23)));
    assert!(is_in_dnd_window(true, Some(t(22)), Some(t(7)), t(6)));
    assert!(!is_in_dnd_window(true, Some(t(22)), Some(t(7)), t(12)));
}

#[test]
fn fan_out_decisions() {
    assert_eq!(recipient_action(Some(7), 7, false, "info", false), FanOut::Skip);
    assert_eq!(recipient_action(None, 7, true, "info", false), FanOut::Skip);
    assert_eq!(recipient_action(None, 7, false, "info", true), FanOut::Queue);
    assert_eq!(recipient_action(None, 7, false, "critical", true), FanOut::Deliver);
    assert_eq!(announcement_roles(&obj(vec![])), None);
    assert_eq!(announcement_roles(&obj(vec![("target_roles", arr(vec![s("all")]))])), None);
    assert_eq!(
        announcement_roles(&obj(vec![("target_roles", arr(vec![s("dispatcher"), Json::Null]))])),
        Some(vec!["dispatcher".to_string()])
    );
    let prefs = vec![("sms".to_string(), "+86".to_string()), ("email".to_string(), "a@b".to_string())];
    assert_eq!(channel_address_for(&prefs, "email"), Some(&"a@b".to_string()));
    assert_eq!(channel_address_for(&prefs, "wecom"), None);
}

#[test]
fn notification_request_checks() {
    assert_eq!(delivery_status_filter(None), Ok(Some("delivered")));
    assert_eq!(delivery_status_filter(Some("all")), Ok(None));
    assert_eq!(
        delivery_status_filter(Some("x")),
        Err("Invalid status 'x'. Valid: unread, queued, read, dismissed, all".to_string())
    );
    let valid = vec!["a".to_string(), "b".to_string()];
    assert!(check_event_types(&vec!["a".to_string()], &valid).is_ok());
    assert_eq!(
        check_event_types(&vec!["c".to_string(), "a".to_string(), "d".to_string()], &valid),
        Err("Unknown event type(s): c, d".to_string())
    );
    assert!(check_rule_name("  ").is_err());
    assert_eq!(effective_cooldown(None), 15);
    assert_eq!(effective_cooldown(Some(0)), 1);
    assert!(check_severity_override(Some("loud")).is_err());
    assert!(check_channel("fax").is_err());
    assert_eq!(check_channel_address(Some("  x ")), Ok(Some("x".to_string())));
    assert!(check_channel_address(Some("   ")).is_err());
    let req = AnnounceRequest { title: "t".into(), message: " ".into(), severity: None, target_roles: None };
    assert_eq!(
        transitops_backend::notifications::models::check_announcement(&req),
        Err("title and message are required and must not be blank".to_string())
    );
}

#[test]
fn channel_adapters_follow_the_adapter_they_hold() {
    let registry = AdapterRegistry::new(vec![
        ChannelAdapter::Email(EmailAdapter::new(None, "ops@example.com".to_string())),
        ChannelAdapter::Sms(SmsAdapter::new(None)),
        ChannelAdapter::WeCom(WeComAdapter::new(Some("http://wecom".into()))),
    ]);
    let names: Vec<&str> = registry.all().iter().map(|a| a.channel()).collect();
    assert_eq!(names, vec!["email", "sms", "wecom"]);
    let available: Vec<bool> = registry.all().iter().map(|a| a.is_available()).collect();
    assert_eq!(available, vec![false, false, true]);
    assert!(registry.any_available());
}

#[test]
fn deliveries_go_to_available_adapters_with_a_preference() {
    let registry = AdapterRegistry::new(vec![
        ChannelAdapter::Email(EmailAdapter::new(Some("http://relay".into()), "ops@example.com".to_string())),
        ChannelAdapter::Sms(SmsAdapter::new(None)),
        ChannelAdapter::WeCom(WeComAdapter::new(Some("http://wecom".into()))),
    ]);
    let prefs = vec![
        ("sms".to_string(), "+100".to_string()),
        ("wecom".to_string(), "w1".to_string()),
        ("wecom".to_string(), "w2".to_string()),
    ];
    assert_eq!(delivery_targets(&registry, &prefs), vec![(2, "w1".to_string())]);
    assert_eq!(delivery_targets(&registry, &vec![]), vec![]);
}
