use orbitdock_server::logging::{
    apply_quiet_target_directives, has_target_override, resolve_filter_directives, utc_day_of,
    RotationMarker, StderrLogMode,
};

#[test]
fn resolve_filter_directives_adds_trace_safe_suppression_by_default() {
    let resolved = resolve_filter_directives(None);

    assert!(resolved.contains("info"));
    assert!(resolved.contains("codex_otel.trace_safe=warn"));
    assert!(resolved.contains("codex_otel.log_only=warn"));
    assert!(resolved.contains("codex_client::custom_ca=warn"));
    assert!(resolved.contains("codex_api::endpoint::responses_websocket=warn"));
    assert!(resolved.contains("codex_core::features=error"));
    assert!(resolved.contains("feedback_tags=warn"));
    assert!(resolved.contains("rmcp::transport::worker=off"));
}

#[test]
fn resolve_filter_directives_adds_trace_safe_suppression_to_custom_filter() {
    let resolved = resolve_filter_directives(Some("debug".to_string()));

    assert_eq!(
        resolved,
        "debug,codex_otel.trace_safe=warn,codex_otel.log_only=warn,codex_client::custom_ca=warn,codex_api::endpoint::responses_websocket=warn,codex_core::features=error,feedback_tags=warn,rmcp::transport::worker=off"
    );
}

#[test]
fn resolve_filter_directives_preserves_explicit_trace_safe_override() {
    let resolved = resolve_filter_directives(Some("debug,codex_otel.trace_safe=info".to_string()));

    assert!(resolved.starts_with("debug,codex_otel.trace_safe=info"));
    assert!(resolved.contains("codex_otel.log_only=warn"));
    assert!(resolved.contains("feedback_tags=warn"));
    assert!(resolved.contains("rmcp::transport::worker=off"));
}

#[test]
fn resolve_filter_directives_preserves_nested_trace_safe_override() {
    let resolved = resolve_filter_directives(Some(
        "debug,codex_otel.trace_safe.summary=trace".to_string(),
    ));

    assert!(resolved.starts_with("debug,codex_otel.trace_safe.summary=trace"));
    assert!(resolved.contains("codex_otel.log_only=warn"));
    assert!(resolved.contains("feedback_tags=warn"));
    assert!(resolved.contains("rmcp::transport::worker=off"));
}

#[test]
fn housekeeping_writer_marks_rotation_once_per_day() {
    let mut writer = RotationMarker {
        last_housekeeping_day: 10,
    };

    assert!(writer.mark_rotation_if_needed(11));
    assert!(!writer.mark_rotation_if_needed(11));
    assert!(!writer.mark_rotation_if_needed(10));
    assert_eq!(writer.last_housekeeping_day, 11);
}

#[test]
fn empty_filter_gets_only_quiet_directives() {
    let resolved = apply_quiet_target_directives("   ");
    assert!(resolved.starts_with("codex_otel.trace_safe=warn,"));
    assert!(!resolved.starts_with(','));
}

#[test]
fn target_override_requires_a_level() {
    assert!(has_target_override(" feedback_tags = info ", "feedback_tags"));
    assert!(!has_target_override("feedback_tags", "feedback_tags"));
    assert!(!has_target_override("feedback_tagsx=info", "feedback_tags"));
    assert!(has_target_override("a=1,feedback_tags.sub=off", "feedback_tags"));
}

#[test]
fn every_quiet_directive_is_added_once() {
    let once = resolve_filter_directives(Some("warn".to_string()));
    let twice = apply_quiet_target_directives(&once);
    assert_eq!(once, twice);
}

#[test]
fn utc_day_counts_whole_days() {
    assert_eq!(utc_day_of(0), 0);
    assert_eq!(utc_day_of(86_399), 0);
    assert_eq!(utc_day_of(86_400), 1);
    assert_eq!(StderrLogMode::default(), StderrLogMode::Compact);
}

#[test]
fn quiet_directives_applied_twice_change_nothing() {
    for base in ["", "  info ", "debug,codex_otel.trace_safe_x=info", "codex_core=trace,rmcp=debug"] {
        let once = apply_quiet_target_directives(base);
        assert_eq!(apply_quiet_target_directives(&once), once);
    }
}
