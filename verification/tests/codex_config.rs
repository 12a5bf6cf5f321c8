use orbitdock_server::codex_config::{
    built_in_provider_summaries, codex_default_config_source, codex_resume_selection,
    config_profiles, config_providers, dedup_non_empty, extract_probe_path,
    infer_codex_config_mode, json_rpc_error_message, layer_origin, normalized_optional_cwd,
    resolved_path_env,
    runtime_origin_overrides, runtime_overrides, source_kind_name, source_path,
    write_status_name, CodexConfigDocumentScope, CodexConfigMergeStrategy, CodexConfigMode,
    CodexConfigSelection, CodexConfigSource, CodexResumeRequest, CodexSessionOverrides,
    ConfigLayerSource, CustomProviderEntry, ProfileEntry, WriteStatus,
};

fn codex_resume_request(
    model: Option<&str>,
    codex_config_mode: Option<CodexConfigMode>,
    codex_config_profile: Option<&str>,
    codex_model_provider: Option<&str>,
) -> CodexResumeRequest {
    CodexResumeRequest {
        session_id: "session-1".to_string(),
        project_path: "/tmp/project".to_string(),
        model: model.map(str::to_string),
        codex_thread_id: None,
        approval_policy: None,
        sandbox_mode: None,
        collaboration_mode: None,
        multi_agent: None,
        personality: None,
        service_tier: None,
        developer_instructions: None,
        codex_config_mode,
        codex_config_profile: codex_config_profile.map(str::to_string),
        codex_model_provider: codex_model_provider.map(str::to_string),
        codex_config_source: Some(CodexConfigSource::User),
        codex_config_overrides: None,
    }
}

#[test]
fn normalized_selection_clears_profile_and_provider_for_inherit_mode() {
    let normalized = CodexConfigSelection {
        config_source: CodexConfigSource::User,
        config_mode: CodexConfigMode::Inherit,
        config_profile: Some("qwen".to_string()),
        model_provider: Some("openrouter".to_string()),
        overrides: CodexSessionOverrides {
            model: Some("gpt-5.4".to_string()),
            model_provider: Some("openrouter".to_string()),
            ..CodexSessionOverrides::default()
        },
    }
    .normalized();

    assert_eq!(normalized.config_profile, None);
    assert_eq!(normalized.model_provider, None);
    assert_eq!(normalized.overrides.model, None);
    assert_eq!(normalized.overrides.model_provider, None);
}

#[test]
fn normalized_selection_clears_stale_profile_for_custom_mode() {
    let normalized = CodexConfigSelection {
        config_source: CodexConfigSource::User,
        config_mode: CodexConfigMode::Custom,
        config_profile: Some("qwen".to_string()),
        model_provider: Some("openrouter".to_string()),
        overrides: CodexSessionOverrides::default(),
    }
    .normalized();

    assert_eq!(normalized.config_profile, None);
    assert_eq!(normalized.model_provider.as_deref(), Some("openrouter"));
}

#[test]
fn normalized_selection_clears_stale_model_for_profile_mode() {
    let normalized = CodexConfigSelection {
        config_source: CodexConfigSource::User,
        config_mode: CodexConfigMode::Profile,
        config_profile: Some("qwen".to_string()),
        model_provider: Some("openrouter".to_string()),
        overrides: CodexSessionOverrides {
            model: Some("gpt-5.4".to_string()),
            model_provider: Some("openrouter".to_string()),
            ..CodexSessionOverrides::default()
        },
    }
    .normalized();

    assert_eq!(normalized.config_profile.as_deref(), Some("qwen"));
    assert_eq!(normalized.model_provider, None);
    assert_eq!(normalized.overrides.model, None);
    assert_eq!(normalized.overrides.model_provider, None);
}

#[test]
fn normalizing_twice_is_normalizing_once() {
    let once = CodexConfigSelection {
        config_source: CodexConfigSource::Orbitdock,
        config_mode: CodexConfigMode::Profile,
        config_profile: Some("qwen".to_string()),
        model_provider: Some("openrouter".to_string()),
        overrides: CodexSessionOverrides {
            model: Some("m".to_string()),
            personality: Some("terse".to_string()),
            ..CodexSessionOverrides::default()
        },
    }
    .normalized();
    let twice = once.clone().normalized();
    assert_eq!(format!("{:?}", once), format!("{:?}", twice));
    assert_eq!(twice.overrides.personality.as_deref(), Some("terse"));
}

#[test]
fn codex_resume_selection_clears_stale_model_for_profile_mode() {
    let request = codex_resume_request(
        Some("gpt-5.4"),
        Some(CodexConfigMode::Profile),
        Some("qwen"),
        Some("openrouter"),
    );
    let selection = codex_resume_selection(&request);

    assert_eq!(selection.config_mode, CodexConfigMode::Profile);
    assert_eq!(selection.config_profile.as_deref(), Some("qwen"));
    assert_eq!(selection.overrides.model, None);
    assert_eq!(selection.overrides.model_provider, None);
}

#[test]
fn codex_resume_selection_preserves_explicit_model_for_custom_mode() {
    let request = codex_resume_request(
        Some("qwen/qwen3-coder-next"),
        Some(CodexConfigMode::Custom),
        None,
        Some("openrouter"),
    );
    let selection = codex_resume_selection(&request);

    assert_eq!(selection.config_mode, CodexConfigMode::Custom);
    assert_eq!(selection.overrides.model.as_deref(), Some("qwen/qwen3-coder-next"));
    assert_eq!(selection.overrides.model_provider.as_deref(), Some("openrouter"));
}

#[test]
fn codex_resume_selection_infers_profile_mode_for_legacy_rows() {
    let request = codex_resume_request(
        Some("qwen/qwen3-coder-next"),
        None,
        Some("qwen"),
        Some("openrouter"),
    );
    let selection = codex_resume_selection(&request);

    assert_eq!(selection.config_mode, CodexConfigMode::Profile);
    assert_eq!(selection.config_profile.as_deref(), Some("qwen"));
    assert_eq!(selection.overrides.model, None);
    assert_eq!(selection.overrides.model_provider, None);
}

#[test]
fn codex_resume_selection_infers_custom_mode_for_legacy_provider_rows() {
    let request = codex_resume_request(Some("qwen/qwen3-coder-next"), None, None, Some("openrouter"));
    let selection = codex_resume_selection(&request);

    assert_eq!(selection.config_mode, CodexConfigMode::Custom);
    assert_eq!(selection.overrides.model.as_deref(), Some("qwen/qwen3-coder-next"));
    assert_eq!(selection.overrides.model_provider.as_deref(), Some("openrouter"));
}

#[test]
fn resume_without_profile_or_provider_inherits() {
    let request = codex_resume_request(Some("m"), None, Some("   "), None);
    let selection = codex_resume_selection(&request);
    assert_eq!(selection.config_mode, CodexConfigMode::Inherit);
    assert_eq!(selection.config_profile, None);
    assert_eq!(selection.overrides.model, None);
}

#[test]
fn infer_mode_reads_stored_names_then_falls_back() {
    assert_eq!(infer_codex_config_mode(Some("inherit"), Some("p"), None), Some(CodexConfigMode::Inherit));
    assert_eq!(infer_codex_config_mode(Some("profile"), None, None), Some(CodexConfigMode::Profile));
    assert_eq!(infer_codex_config_mode(Some("custom"), None, None), Some(CodexConfigMode::Custom));
    assert_eq!(infer_codex_config_mode(Some("Custom"), None, None), None);
    assert_eq!(infer_codex_config_mode(None, Some(" qwen "), Some("x")), Some(CodexConfigMode::Profile));
    assert_eq!(infer_codex_config_mode(None, Some(" "), Some("x")), Some(CodexConfigMode::Custom));
    assert_eq!(infer_codex_config_mode(None, None, Some("\t")), None);
}

#[test]
fn default_config_source_is_user_unless_orbitdock() {
    assert_eq!(codex_default_config_source(Some("orbitdock")), CodexConfigSource::Orbitdock);
    assert_eq!(codex_default_config_source(Some("user")), CodexConfigSource::User);
    assert_eq!(codex_default_config_source(Some("Orbitdock")), CodexConfigSource::User);
    assert_eq!(codex_default_config_source(None), CodexConfigSource::User);
}

#[test]
fn optional_cwd_is_trimmed_and_blank_is_none() {
    assert_eq!(normalized_optional_cwd("  /work/repo \n").as_deref(), Some("/work/repo"));
    assert_eq!(normalized_optional_cwd(" \t "), None);
}

#[test]
fn scope_and_merge_strategy_names() {
    assert_eq!(CodexConfigDocumentScope::User.as_str(), "user");
    assert_eq!(CodexConfigDocumentScope::Project.as_str(), "project");
    assert_eq!(CodexConfigMergeStrategy::or_default(None), CodexConfigMergeStrategy::Replace);
    assert_eq!(
        CodexConfigMergeStrategy::or_default(Some(CodexConfigMergeStrategy::Upsert)),
        CodexConfigMergeStrategy::Upsert
    );
    assert_eq!(write_status_name(WriteStatus::Applied), "ok");
    assert_eq!(write_status_name(WriteStatus::Overridden), "ok_overridden");
}

#[test]
fn runtime_origins_follow_selection_overrides() {
    let selection = CodexConfigSelection {
        config_source: CodexConfigSource::User,
        config_mode: CodexConfigMode::Custom,
        config_profile: None,
        model_provider: None,
        overrides: CodexSessionOverrides {
            model_provider: Some("openrouter".to_string()),
            multi_agent: Some(true),
            effort: Some("high".to_string()),
            ..CodexSessionOverrides::default()
        },
    };
    let origins = runtime_origin_overrides(&selection);
    let keys: Vec<&str> = origins.iter().map(|(k, _)| k.as_str()).collect();
    assert_eq!(keys, vec!["model_provider", "features.multi_agent", "model_reasoning_effort"]);
    for (key, origin) in &origins {
        assert_eq!(origin.source_kind, "orbitdock_runtime");
        assert_eq!(origin.path.as_deref(), Some(key.as_str()));
        assert_eq!(origin.version, "runtime");
    }
}

#[test]
fn runtime_overrides_prefer_selection_provider() {
    let selection = CodexConfigSelection {
        config_source: CodexConfigSource::User,
        config_mode: CodexConfigMode::Custom,
        config_profile: Some("p".to_string()),
        model_provider: Some("mine".to_string()),
        overrides: CodexSessionOverrides {
            model_provider: Some("theirs".to_string()),
            model: Some("m".to_string()),
            ..CodexSessionOverrides::default()
        },
    };
    let layer = runtime_overrides(&selection);
    assert_eq!(
        layer.text,
        vec![
            ("profile".to_string(), "p".to_string()),
            ("model_provider".to_string(), "mine".to_string()),
            ("model".to_string(), "m".to_string()),
        ]
    );
    assert!(!layer.is_empty());
    let empty = runtime_overrides(&CodexConfigSelection {
        config_source: CodexConfigSource::User,
        config_mode: CodexConfigMode::Inherit,
        config_profile: None,
        model_provider: None,
        overrides: CodexSessionOverrides::default(),
    });
    assert!(empty.is_empty());
}

#[test]
fn profiles_are_sorted_by_name_and_marked_codex() {
    let entries = vec![
        ProfileEntry { name: "zeta".into(), model: Some("m1".into()), model_provider: None },
        ProfileEntry { name: "alpha".into(), model: None, model_provider: Some("p".into()) },
        ProfileEntry { name: "Beta".into(), model: None, model_provider: None },
    ];
    let profiles = config_profiles(&entries);
    let names: Vec<&str> = profiles.iter().map(|p| p.name.as_str()).collect();
    assert_eq!(names, vec!["Beta", "alpha", "zeta"]);
    assert_eq!(profiles[1].model_provider.as_deref(), Some("p"));
    assert!(profiles.iter().all(|p| p.source.as_deref() == Some("codex")));
}

#[test]
fn providers_merge_custom_over_builtin_and_sort_by_id() {
    let builtins = built_in_provider_summaries();
    assert_eq!(builtins.len(), 3);
    assert_eq!(builtins[0].env_key.as_deref(), Some("OPENAI_API_KEY"));
    let customs = vec![
        CustomProviderEntry {
            id: "openrouter".into(),
            base_url: Some("https://openrouter.ai/api/v1".into()),
            wire_api: None,
            env_key: Some("OPENROUTER_API_KEY".into()),
        },
        CustomProviderEntry { id: "ollama".into(), base_url: Some("http://gpu:11434/v1".into()), wire_api: None, env_key: None },
        CustomProviderEntry { id: "openrouter".into(), base_url: None, wire_api: Some("chat".into()), env_key: None },
    ];
    let providers = config_providers(&customs);
    let ids: Vec<&str> = providers.iter().map(|p| p.id.as_str()).collect();
    assert_eq!(ids, vec!["lmstudio", "ollama", "openai", "openrouter"]);
    assert_eq!(providers[1].base_url.as_deref(), Some("http://gpu:11434/v1"));
    assert_eq!(providers[1].is_custom, Some(true));
    assert_eq!(providers[1].display_name.as_deref(), Some("ollama"));
    assert_eq!(providers[2].is_custom, Some(false));
    assert_eq!(providers[3].wire_api.as_deref(), Some("chat"));
    assert_eq!(providers[3].base_url, None);
}

#[test]
fn probe_path_is_taken_from_first_marked_line() {
    let out = "Last login: today\r\n__ORBITDOCK_PATH__/usr/bin:/bin\r\n__ORBITDOCK_PATH__/other\n";
    assert_eq!(extract_probe_path(out).as_deref(), Some("/usr/bin:/bin"));
    assert_eq!(extract_probe_path("no marker\n"), None);
    assert_eq!(extract_probe_path(""), None);
    assert_eq!(extract_probe_path("__ORBITDOCK_PATH__").as_deref(), Some(""));
}

#[test]
fn dedup_keeps_first_non_blank_entries() {
    let entries = vec![
        " /usr/bin ".to_string(),
        "".to_string(),
        "/bin".to_string(),
        "/usr/bin".to_string(),
        "  ".to_string(),
    ];
    assert_eq!(dedup_non_empty(entries).as_deref(), Some("/usr/bin:/bin"));
    assert_eq!(dedup_non_empty(vec![" ".to_string()]), None);
    assert_eq!(dedup_non_empty(Vec::new()), None);
}

#[test]
fn layer_sources_name_kind_and_location() {
    let mdm = ConfigLayerSource::Mdm { domain: "com.example".into(), key: "codex".into() };
    assert_eq!(source_kind_name(&mdm), "mdm");
    assert_eq!(source_path(&mdm).as_deref(), Some("com.example:codex"));
    assert_eq!(source_kind_name(&ConfigLayerSource::SessionFlags), "session_flags");
    assert_eq!(source_path(&ConfigLayerSource::SessionFlags), None);
    let project = ConfigLayerSource::Project { dot_codex_folder: "/repo/.codex".into() };
    let origin = layer_origin(&project, "v3");
    assert_eq!(origin.source_kind, "project");
    assert_eq!(origin.path.as_deref(), Some("/repo/.codex"));
    assert_eq!(origin.version, "v3");
    assert_eq!(
        source_kind_name(&ConfigLayerSource::LegacyManagedConfigTomlFromMdm),
        "legacy_managed_mdm"
    );
}

#[test]
fn json_rpc_errors_name_the_method() {
    assert_eq!(json_rpc_error_message("config/read", Some("boom")), "config/read failed: boom");
    assert_eq!(
        json_rpc_error_message("initialize", None),
        "initialize failed: Unknown JSON-RPC error"
    );
}

#[test]
fn codex_path_puts_binary_dir_first() {
    let entries = vec!["/usr/bin".to_string(), "/opt/codex/bin".to_string(), " ".to_string()];
    assert_eq!(
        resolved_path_env(Some("/opt/codex/bin".to_string()), entries.clone()).as_deref(),
        Some("/opt/codex/bin:/usr/bin")
    );
    assert_eq!(resolved_path_env(None, entries).as_deref(), Some("/usr/bin:/opt/codex/bin"));
    assert_eq!(resolved_path_env(None, Vec::new()), None);
}
