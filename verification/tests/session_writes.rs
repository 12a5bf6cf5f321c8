use orbitdock_server::codex_config::{CodexConfigMode, CodexConfigSource};
use orbitdock_server::session_config::SessionConfigChanges;
use orbitdock_server::pending_hooks::Provider;
use orbitdock_server::session_writes::{
    config_mode_str, config_source_str, hook_update_effects, integration_mode_writes,
    parse_config_source, session_attention_writes,
    session_config_writes,
    claude_shadow_is_owned_by_direct_session, ColumnValue, OwnerCandidate, SessionAttentionChange,
};

fn no_changes() -> SessionConfigChanges {
    SessionConfigChanges {
        approval_policy: None,
        approval_policy_details: None,
        sandbox_mode: None,
        approvals_reviewer: None,
        permission_mode: None,
        collaboration_mode: None,
        multi_agent: None,
        personality: None,
        service_tier: None,
        developer_instructions: None,
        model: None,
        effort: None,
        codex_config_mode: None,
        codex_config_profile: None,
        codex_model_provider: None,
        codex_config_source: None,
        codex_config_overrides: None,
    }
}

#[test]
fn stored_names_of_modes_and_sources() {
    assert_eq!(config_mode_str(CodexConfigMode::Inherit), "inherit");
    assert_eq!(config_mode_str(CodexConfigMode::Profile), "profile");
    assert_eq!(config_mode_str(CodexConfigMode::Custom), "custom");
    assert_eq!(config_source_str(CodexConfigSource::Orbitdock), "orbitdock");
    assert_eq!(config_source_str(CodexConfigSource::User), "user");
}

#[test]
fn config_change_writes_only_named_columns() {
    assert!(session_config_writes(&no_changes(), None).is_empty());

    let mut changes = no_changes();
    changes.model = Some(Some("gpt-5".to_string()));
    changes.personality = Some(None);
    changes.multi_agent = Some(Some(true));
    changes.codex_config_mode = Some(Some(CodexConfigMode::Custom));
    changes.codex_config_profile = Some(None);
    changes.codex_config_source = Some(CodexConfigSource::Orbitdock);
    let writes = session_config_writes(&changes, Some("{\"model\":\"gpt-5\"}".to_string()));
    let columns: Vec<&str> = writes.iter().map(|w| w.column).collect();
    assert_eq!(
        columns,
        vec![
            "multi_agent",
            "personality",
            "model",
            "codex_config_mode",
            "codex_config_source",
            "codex_config_overrides_json",
        ]
    );
    assert_eq!(writes[0].value, ColumnValue::Flag(Some(true)));
    assert_eq!(writes[1].value, ColumnValue::Text(None));
    assert_eq!(writes[2].value, ColumnValue::Text(Some("gpt-5".to_string())));
    assert_eq!(writes[3].value, ColumnValue::Text(Some("custom".to_string())));
    assert_eq!(writes[4].value, ColumnValue::Text(Some("orbitdock".to_string())));
}

#[test]
fn attention_change_writes_named_fields_in_order() {
    let change = SessionAttentionChange {
        attention_reason: Some(Some("awaitingPermission".to_string())),
        last_tool: None,
        last_tool_at: None,
        pending_tool_name: Some(Some("Bash".to_string())),
        pending_tool_input: Some(None),
        pending_question: None,
    };
    let writes = session_attention_writes(&change);
    let columns: Vec<&str> = writes.iter().map(|w| w.column).collect();
    assert_eq!(columns, vec!["attention_reason", "pending_tool_name", "pending_tool_input"]);
    assert_eq!(writes[2].value, ColumnValue::Text(None));
}

#[test]
fn settled_hook_status_clears_pending_state() {
    let working = hook_update_effects(Some("working"), false);
    assert!(working.clears_pending);
    assert!(working.downgrades_attention);
    assert!(!working.ends_lifecycle);

    let ended = hook_update_effects(Some("ended"), true);
    assert!(ended.clears_pending);
    assert!(!ended.downgrades_attention);
    assert!(ended.ends_lifecycle);

    let permission = hook_update_effects(Some("permission"), false);
    assert!(!permission.clears_pending);
    assert!(!permission.downgrades_attention);
    assert!(!permission.ends_lifecycle);

    let none = hook_update_effects(None, false);
    assert!(!none.clears_pending);
}

#[test]
fn integration_change_sets_matching_control_mode() {
    let writes = integration_mode_writes(Some("passive".to_string()), Some("direct".to_string()));
    let columns: Vec<&str> = writes.iter().map(|w| w.column).collect();
    assert_eq!(columns, vec!["codex_integration_mode", "claude_integration_mode", "control_mode"]);
    assert_eq!(writes[2].value, ColumnValue::Text(Some("direct".to_string())));

    let passive = integration_mode_writes(Some("passive".to_string()), None);
    assert_eq!(passive.len(), 2);
    assert_eq!(passive[1].column, "control_mode");
    assert_eq!(passive[1].value, ColumnValue::Text(Some("passive".to_string())));

    assert!(integration_mode_writes(None, None).is_empty());
}

#[test]
fn stored_sources_parse_back() {
    assert_eq!(parse_config_source(Some("orbitdock")), Some(CodexConfigSource::Orbitdock));
    assert_eq!(parse_config_source(Some("user")), Some(CodexConfigSource::User));
    assert_eq!(parse_config_source(Some("User")), None);
    assert_eq!(parse_config_source(None), None);
    for source in [CodexConfigSource::Orbitdock, CodexConfigSource::User] {
        assert_eq!(parse_config_source(Some(config_source_str(source))), Some(source));
    }
}

fn candidate(
    provider: Option<Provider>,
    sdk_id: Option<&str>,
    control: Option<&str>,
    integration: Option<&str>,
) -> OwnerCandidate {
    OwnerCandidate {
        provider,
        claude_sdk_session_id: sdk_id.map(str::to_string),
        control_mode: control.map(str::to_string),
        claude_integration_mode: integration.map(str::to_string),
    }
}

#[test]
fn shadow_is_owned_only_by_a_direct_claude_session() {
    let direct_by_mode = vec![candidate(Some(Provider::Claude), Some("sdk-1"), Some("direct"), None)];
    assert!(claude_shadow_is_owned_by_direct_session(&direct_by_mode, "sdk-1"));
    assert!(!claude_shadow_is_owned_by_direct_session(&direct_by_mode, "sdk-2"));

    let direct_by_integration = vec![candidate(Some(Provider::Claude), Some("sdk-1"), None, Some("direct"))];
    assert!(claude_shadow_is_owned_by_direct_session(&direct_by_integration, "sdk-1"));

    let passive = vec![
        candidate(Some(Provider::Claude), Some("sdk-1"), Some("passive"), Some("direct")),
        candidate(Some(Provider::Codex), Some("sdk-1"), Some("direct"), None),
        candidate(Some(Provider::Claude), None, Some("direct"), None),
        candidate(Some(Provider::Claude), Some("sdk-1"), Some("Direct"), None),
    ];
    assert!(!claude_shadow_is_owned_by_direct_session(&passive, "sdk-1"));
}
