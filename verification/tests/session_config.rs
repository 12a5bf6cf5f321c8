use orbitdock_server::codex_config::{
    CodexConfigMode, CodexConfigSelection, CodexConfigSource, CodexSessionOverrides,
};
use orbitdock_server::session_config::{
    control_deck_session_update, core_approval_policy_to_details, core_approval_policy_to_string,
    core_sandbox_policy_to_string, effective_settings, merge_codex_overrides,
    plan_session_config_update, resolved_config_changes, resume_launch_settings, AskForApproval, CodexApprovalMode,
    CodexApprovalPolicy, CodexResolvedSettings, ControlDeckConfigUpdate, CoreConfigView,
    GranularApprovalConfig, SandboxPolicy, SessionConfigContext, SessionConfigPlan,
    SessionConfigUpdate,
};
use orbitdock_server::session_errors::{
    config_update_error_of_load, config_update_error_of_mutation, ControlDeckConfigUpdateError,
    ControlDeckSnapshotLoadError, SessionMutationError,
};

fn empty_update() -> SessionConfigUpdate {
    SessionConfigUpdate {
        approval_policy: None,
        approval_policy_details: None,
        sandbox_mode: None,
        approvals_reviewer: None,
        permission_mode: None,
        collaboration_mode: None,
        multi_agent: None,
        personality: None,
        service_tier: None,
        developer_instructions: None,
        model: None,
        effort: None,
        codex_config_mode: None,
        codex_config_profile: None,
        codex_model_provider: None,
    }
}

fn codex_context(connected: bool) -> SessionConfigContext {
    let mut overrides = CodexSessionOverrides::default();
    overrides.model = Some("gpt-5".to_string());
    overrides.personality = Some("terse".to_string());
    SessionConfigContext {
        is_codex: true,
        codex_connected: connected,
        codex_config_overrides: Some(overrides),
        codex_config_source: Some(CodexConfigSource::Orbitdock),
        codex_config_mode: Some(CodexConfigMode::Profile),
        codex_config_profile: Some("work".to_string()),
        codex_model_provider: None,
    }
}

fn granular() -> GranularApprovalConfig {
    GranularApprovalConfig {
        sandbox_approval: true,
        rules: false,
        skill_approval: true,
        request_permissions: false,
        mcp_elicitations: true,
    }
}

#[test]
fn approval_policies_have_client_names() {
    assert_eq!(core_approval_policy_to_string(AskForApproval::UnlessTrusted), "untrusted");
    assert_eq!(core_approval_policy_to_string(AskForApproval::OnFailure), "on-failure");
    assert_eq!(core_approval_policy_to_string(AskForApproval::OnRequest), "on-request");
    assert_eq!(core_approval_policy_to_string(AskForApproval::Never), "never");
    assert_eq!(core_approval_policy_to_string(AskForApproval::Granular(granular())), "reject");
}

#[test]
fn approval_policy_details_keep_granular_switches() {
    assert_eq!(
        core_approval_policy_to_details(AskForApproval::UnlessTrusted),
        CodexApprovalPolicy::Mode(CodexApprovalMode::Untrusted)
    );
    assert_eq!(
        core_approval_policy_to_details(AskForApproval::Never),
        CodexApprovalPolicy::Mode(CodexApprovalMode::Never)
    );
    assert_eq!(
        core_approval_policy_to_details(AskForApproval::Granular(granular())),
        CodexApprovalPolicy::Granular(granular())
    );
}

#[test]
fn external_sandbox_reads_as_read_only() {
    assert_eq!(core_sandbox_policy_to_string(&SandboxPolicy::ExternalSandbox), "read-only");
    assert_eq!(core_sandbox_policy_to_string(&SandboxPolicy::ReadOnly), "read-only");
    assert_eq!(core_sandbox_policy_to_string(&SandboxPolicy::WorkspaceWrite), "workspace-write");
    assert_eq!(
        core_sandbox_policy_to_string(&SandboxPolicy::DangerFullAccess),
        "danger-full-access"
    );
}

#[test]
fn effective_settings_prefer_configured_developer_instructions() {
    let mut overrides = CodexSessionOverrides::default();
    overrides.developer_instructions = Some("from session".to_string());
    overrides.collaboration_mode = Some("pair".to_string());
    let selection = CodexConfigSelection {
        config_source: CodexConfigSource::User,
        config_mode: CodexConfigMode::Custom,
        config_profile: None,
        model_provider: None,
        overrides,
    };
    let mut config = CoreConfigView {
        active_profile: Some("work".to_string()),
        model: Some("gpt-5".to_string()),
        model_provider_id: "openai".to_string(),
        approval_policy: AskForApproval::OnRequest,
        sandbox_policy: SandboxPolicy::WorkspaceWrite,
        service_tier: Some("flex".to_string()),
        developer_instructions: Some("from config".to_string()),
        model_reasoning_effort: Some("high".to_string()),
    };
    let settings = effective_settings(&config, &selection);
    assert_eq!(settings.developer_instructions.as_deref(), Some("from config"));
    assert_eq!(settings.approval_policy.as_deref(), Some("on-request"));
    assert_eq!(settings.sandbox_mode.as_deref(), Some("workspace-write"));
    assert_eq!(settings.model_provider.as_deref(), Some("openai"));
    assert_eq!(settings.config_profile.as_deref(), Some("work"));
    assert_eq!(settings.collaboration_mode.as_deref(), Some("pair"));
    assert_eq!(settings.effort.as_deref(), Some("high"));
    assert_eq!(settings.config_mode, CodexConfigMode::Custom);

    config.developer_instructions = None;
    let settings = effective_settings(&config, &selection);
    assert_eq!(settings.developer_instructions.as_deref(), Some("from session"));
}

#[test]
fn merge_sets_named_overrides_and_keeps_the_rest() {
    let mut current = CodexSessionOverrides::default();
    current.model = Some("gpt-5".to_string());
    current.effort = Some("low".to_string());
    current.personality = Some("terse".to_string());
    let mut update = empty_update();
    update.effort = Some(Some("high".to_string()));
    update.personality = Some(None);
    let merged = merge_codex_overrides(&current, &update);
    assert_eq!(merged.model.as_deref(), Some("gpt-5"));
    assert_eq!(merged.effort.as_deref(), Some("high"));
    assert_eq!(merged.personality, None);

    let again = merge_codex_overrides(&merged, &update);
    assert_eq!(again.effort.as_deref(), Some("high"));
    assert_eq!(again.model.as_deref(), Some("gpt-5"));
}

#[test]
fn detailed_approval_policy_names_the_approval_policy() {
    let mut current = CodexSessionOverrides::default();
    current.approval_policy = Some("never".to_string());
    let mut update = empty_update();
    update.approval_policy = Some(Some("on-request".to_string()));
    update.approval_policy_details = Some(Some(CodexApprovalPolicy::Granular(granular())));
    update.approvals_reviewer = Some(Some("agent".to_string()));
    let merged = merge_codex_overrides(&current, &update);
    assert_eq!(merged.approval_policy.as_deref(), Some("reject"));
    assert_eq!(
        merged.approval_policy_details,
        Some(CodexApprovalPolicy::Granular(granular()))
    );
    assert_eq!(merged.approvals_reviewer.as_deref(), Some("agent"));

    let mut named = empty_update();
    named.approval_policy_details =
        Some(Some(CodexApprovalPolicy::Mode(CodexApprovalMode::OnFailure)));
    let merged = merge_codex_overrides(&current, &named);
    assert_eq!(merged.approval_policy.as_deref(), Some("on-failure"));

    let mut cleared = empty_update();
    cleared.approval_policy_details = Some(None);
    let merged = merge_codex_overrides(&current, &cleared);
    assert_eq!(merged.approval_policy.as_deref(), Some("never"));
    assert_eq!(merged.approval_policy_details, None);
}

#[test]
fn legacy_summary_names_each_policy() {
    assert_eq!(CodexApprovalPolicy::Mode(CodexApprovalMode::Untrusted).legacy_summary(), "untrusted");
    assert_eq!(CodexApprovalPolicy::Mode(CodexApprovalMode::OnRequest).legacy_summary(), "on-request");
    assert_eq!(CodexApprovalPolicy::Mode(CodexApprovalMode::Never).legacy_summary(), "never");
    assert_eq!(CodexApprovalPolicy::Granular(granular()).legacy_summary(), "reject");
}

#[test]
fn codex_plan_carries_the_approvals_reviewer() {
    let mut update = empty_update();
    update.approvals_reviewer = Some(None);
    match plan_session_config_update(&codex_context(false), &update) {
        Ok(SessionConfigPlan::ResolveCodex { approvals_reviewer, .. }) => {
            assert_eq!(approvals_reviewer, Some(None))
        },
        _ => panic!("expected a selection to resolve"),
    }
}

#[test]
fn running_codex_session_refuses_selection_change() {
    let mut update = empty_update();
    update.codex_config_profile = Some(Some("home".to_string()));
    match plan_session_config_update(&codex_context(true), &update) {
        Err(SessionMutationError::InvalidCodexConfig(message)) => assert_eq!(
            message,
            "Provider and profile selection are set when a Codex session starts. Start a new session to change them."
        ),
        _ => panic!("expected a refusal"),
    }
}

#[test]
fn idle_codex_session_resolves_merged_selection() {
    let mut update = empty_update();
    update.codex_config_mode = Some(None);
    update.model = Some(Some("o4".to_string()));
    update.permission_mode = Some(Some("plan".to_string()));
    match plan_session_config_update(&codex_context(false), &update) {
        Ok(SessionConfigPlan::ResolveCodex { selection, permission_mode, .. }) => {
            assert_eq!(selection.config_mode, CodexConfigMode::Inherit);
            assert_eq!(selection.config_source, CodexConfigSource::Orbitdock);
            assert_eq!(selection.config_profile.as_deref(), Some("work"));
            assert_eq!(selection.overrides.model.as_deref(), Some("o4"));
            assert_eq!(selection.overrides.personality.as_deref(), Some("terse"));
            assert_eq!(permission_mode, Some(Some("plan".to_string())));
        },
        _ => panic!("expected a selection to resolve"),
    }
}

#[test]
fn running_codex_session_accepts_other_settings() {
    let mut update = empty_update();
    update.sandbox_mode = Some(Some("read-only".to_string()));
    match plan_session_config_update(&codex_context(true), &update) {
        Ok(SessionConfigPlan::ResolveCodex { selection, .. }) => {
            assert_eq!(selection.config_mode, CodexConfigMode::Profile);
            assert_eq!(selection.overrides.sandbox_mode.as_deref(), Some("read-only"));
        },
        _ => panic!("expected a selection to resolve"),
    }
}

#[test]
fn other_sessions_apply_the_update_as_given() {
    let ctx = SessionConfigContext {
        is_codex: false,
        codex_connected: false,
        codex_config_overrides: None,
        codex_config_source: None,
        codex_config_mode: None,
        codex_config_profile: None,
        codex_model_provider: None,
    };
    let mut update = empty_update();
    update.permission_mode = Some(Some("acceptEdits".to_string()));
    update.codex_config_profile = Some(Some("ignored".to_string()));
    match plan_session_config_update(&ctx, &update) {
        Ok(SessionConfigPlan::Apply(changes)) => {
            assert_eq!(changes.permission_mode, Some(Some("acceptEdits".to_string())));
            assert_eq!(changes.codex_config_profile, Some(Some("ignored".to_string())));
            assert!(changes.codex_config_source.is_none());
            assert!(changes.codex_config_overrides.is_none());
            assert!(changes.model.is_none());
        },
        _ => panic!("expected changes to apply"),
    }
}

#[test]
fn resolved_settings_become_the_changes() {
    let selection = CodexConfigSelection {
        config_source: CodexConfigSource::User,
        config_mode: CodexConfigMode::Profile,
        config_profile: Some("work".to_string()),
        model_provider: None,
        overrides: CodexSessionOverrides::default(),
    };
    let resolved = CodexResolvedSettings {
        config_source: CodexConfigSource::User,
        config_mode: CodexConfigMode::Profile,
        config_profile: Some("work".to_string()),
        overrides: CodexSessionOverrides::default(),
        model: Some("gpt-5".to_string()),
        model_provider: Some("openai".to_string()),
        approval_policy: Some("never".to_string()),
        approval_policy_details: Some(CodexApprovalPolicy::Mode(CodexApprovalMode::Never)),
        sandbox_mode: Some("read-only".to_string()),
        collaboration_mode: None,
        multi_agent: Some(true),
        personality: None,
        service_tier: None,
        developer_instructions: None,
        effort: Some("medium".to_string()),
    };
    let changes = resolved_config_changes(&selection, &None, &Some(Some("user".to_string())), Ok(resolved)).ok().unwrap();
    assert_eq!(changes.model, Some(Some("gpt-5".to_string())));
    assert_eq!(changes.approval_policy, Some(Some("never".to_string())));
    assert_eq!(changes.multi_agent, Some(Some(true)));
    assert_eq!(changes.codex_config_mode, Some(Some(CodexConfigMode::Profile)));
    assert_eq!(changes.codex_config_profile, Some(Some("work".to_string())));
    assert_eq!(changes.codex_model_provider, Some(Some("openai".to_string())));
    assert_eq!(changes.codex_config_source, Some(CodexConfigSource::User));
    assert!(changes.codex_config_overrides.is_some());
    assert_eq!(changes.permission_mode, None);
    assert_eq!(
        changes.approval_policy_details,
        Some(Some(CodexApprovalPolicy::Mode(CodexApprovalMode::Never)))
    );
    assert_eq!(changes.approvals_reviewer, Some(Some("user".to_string())));

    match resolved_config_changes(&selection, &None, &None, Err("bad profile".to_string())) {
        Err(SessionMutationError::InvalidCodexConfig(message)) => {
            assert_eq!(message, "bad profile")
        },
        _ => panic!("expected the resolution failure"),
    }
}

#[test]
fn control_deck_update_sets_only_given_settings() {
    let update = control_deck_session_update(ControlDeckConfigUpdate {
        approval_policy: Some("on-request".to_string()),
        approval_policy_details: None,
        sandbox_mode: None,
        approvals_reviewer: Some("agent".to_string()),
        permission_mode: Some("plan".to_string()),
        collaboration_mode: None,
        model: None,
        effort: Some("high".to_string()),
    });
    assert_eq!(update.approval_policy, Some(Some("on-request".to_string())));
    assert_eq!(update.sandbox_mode, None);
    assert_eq!(update.approval_policy_details, None);
    assert_eq!(update.approvals_reviewer, Some(Some("agent".to_string())));
    assert_eq!(update.permission_mode, Some(Some("plan".to_string())));
    assert_eq!(update.effort, Some(Some("high".to_string())));
    assert!(update.codex_config_mode.is_none());
    assert!(plan_session_config_update(&codex_context(true), &update).is_ok());
}

#[test]
fn control_deck_reports_config_failures() {
    assert_eq!(
        config_update_error_of_mutation(SessionMutationError::NotFound("s1".to_string())),
        ControlDeckConfigUpdateError::NotFound
    );
    assert_eq!(
        config_update_error_of_mutation(SessionMutationError::InvalidCodexConfig("no".to_string())),
        ControlDeckConfigUpdateError::InvalidConfig("no".to_string())
    );
    assert_eq!(
        config_update_error_of_load(ControlDeckSnapshotLoadError::Db("locked".to_string())),
        ControlDeckConfigUpdateError::Db("locked".to_string())
    );
    assert_eq!(
        config_update_error_of_load(ControlDeckSnapshotLoadError::Runtime("gone".to_string())),
        ControlDeckConfigUpdateError::Runtime("gone".to_string())
    );
    assert_eq!(
        config_update_error_of_load(ControlDeckSnapshotLoadError::NotFound),
        ControlDeckConfigUpdateError::NotFound
    );
}

#[test]
fn resume_prefers_resolved_settings_then_selection() {
    let mut overrides = CodexSessionOverrides::default();
    overrides.model = Some("o4".to_string());
    overrides.personality = Some("terse".to_string());
    overrides.model_provider = Some("ollama".to_string());
    overrides.approvals_reviewer = Some("user".to_string());
    let selection = CodexConfigSelection {
        config_source: CodexConfigSource::User,
        config_mode: CodexConfigMode::Custom,
        config_profile: Some("work".to_string()),
        model_provider: None,
        overrides,
    };
    let unresolved = resume_launch_settings(&selection, None);
    assert_eq!(unresolved.model.as_deref(), Some("o4"));
    assert_eq!(unresolved.model_provider.as_deref(), Some("ollama"));
    assert_eq!(unresolved.config_profile.as_deref(), Some("work"));
    assert_eq!(unresolved.approval_policy, None);
    assert_eq!(unresolved.approvals_reviewer.as_deref(), Some("user"));

    let resolved = CodexResolvedSettings {
        config_source: CodexConfigSource::User,
        config_mode: CodexConfigMode::Custom,
        config_profile: None,
        overrides: CodexSessionOverrides::default(),
        model: Some("gpt-5".to_string()),
        model_provider: Some("openai".to_string()),
        approval_policy: Some("never".to_string()),
        approval_policy_details: None,
        sandbox_mode: None,
        collaboration_mode: None,
        multi_agent: Some(false),
        personality: None,
        service_tier: None,
        developer_instructions: None,
        effort: None,
    };
    let launched = resume_launch_settings(&selection, Some(resolved));
    assert_eq!(launched.model.as_deref(), Some("gpt-5"));
    assert_eq!(launched.model_provider.as_deref(), Some("openai"));
    assert_eq!(launched.approval_policy.as_deref(), Some("never"));
    assert_eq!(launched.personality.as_deref(), Some("terse"));
    assert_eq!(launched.config_profile.as_deref(), Some("work"));
    assert_eq!(launched.multi_agent, Some(false));
}
