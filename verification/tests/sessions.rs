use orbitdock_server::dashboard::IntegrationMode;
use orbitdock_server::pending_hooks::Provider;
use orbitdock_server::session_errors::{
    map_dispatch_error, takeover_permission_persist_op, ControlDeckSubmitError,
    DispatchMessageError, ResumeSessionError, SessionMutationError, TakeoverSessionError,
};
use orbitdock_server::thread_registry::{
    find_unregistered_direct_session, first_thread_of, is_orbitdock_id, SessionCandidate,
    ThreadRegistry,
};

#[test]
fn error_codes_and_messages() {
    let e = SessionMutationError::NotFound("s1".into());
    assert_eq!(e.code(), "not_found");
    assert_eq!(e.message(), "Session s1 not found");
    let e = SessionMutationError::InvalidCodexConfig("bad profile".into());
    assert_eq!(e.code(), "invalid_codex_config");
    assert_eq!(e.message(), "bad profile");
    let r = ResumeSessionError::MissingClaudeResumeId;
    assert_eq!(r.code(), "resume_failed");
    assert_eq!(r.message(), "Cannot resume — no valid provider session ID was saved");
    assert_eq!(TakeoverSessionError::NotPassive("s2".into()).message(), "Session s2 is not a passive session — cannot take over");
    assert_eq!(TakeoverSessionError::NotPassive("s2".into()).code(), "not_passive");
    assert_eq!(TakeoverSessionError::TakeHandleFailed.code(), "take_failed");
    assert_eq!(TakeoverSessionError::ConnectorFailed("boom".into()).message(), "boom");
    assert_eq!(map_dispatch_error(DispatchMessageError::ConnectorUnavailable), ControlDeckSubmitError::ConnectorUnavailable);
    assert_eq!(map_dispatch_error(DispatchMessageError::SessionNotFound), ControlDeckSubmitError::SessionNotFound);
}

#[test]
fn takeover_persists_permission_mode_only_when_asked() {
    let op = takeover_permission_persist_op("s1", true, Some("plan".into())).unwrap();
    assert_eq!((op.session_id.as_str(), op.permission_mode.as_str()), ("s1", "plan"));
    assert!(takeover_permission_persist_op("s1", false, Some("plan".into())).is_none());
    assert!(takeover_permission_persist_op("s1", true, None).is_none());
}

#[test]
fn thread_registry_maps_threads_to_sessions() {
    let mut registry = ThreadRegistry::new();
    registry.register_codex_thread("od-session-1", "thread-a");
    registry.register_claude_thread("od-session-2", "sdk-b");
    registry.register_codex_thread("od-session-3", "od-not-a-thread");
    assert_eq!(registry.resolve_thread(Provider::Codex, "thread-a").as_deref(), Some("od-session-1"));
    assert_eq!(registry.resolve_thread(Provider::Claude, "sdk-b").as_deref(), Some("od-session-2"));
    assert_eq!(registry.resolve_thread(Provider::Codex, "od-not-a-thread"), None);
    assert_eq!(registry.thread_for_session(Provider::Codex, "od-session-1").as_deref(), Some("thread-a"));
    registry.remove_session_threads("od-session-1");
    assert_eq!(registry.resolve_thread(Provider::Codex, "thread-a"), None);
    assert_eq!(registry.resolve_thread(Provider::Claude, "sdk-b").as_deref(), Some("od-session-2"));
    assert!(is_orbitdock_id("od-123"));
    assert!(!is_orbitdock_id("thread-od-"));
}

#[test]
fn unclaimed_direct_session_is_found_per_project() {
    let mut registry = ThreadRegistry::new();
    registry.register_claude_thread("s1", "sdk-1");
    let candidate = |id: &str, provider, mode, active, path: &str| SessionCandidate {
        id: id.into(),
        provider,
        integration_mode: mode,
        is_active: active,
        project_path: path.into(),
    };
    let sessions = vec![
        candidate("s1", Provider::Claude, Some(IntegrationMode::Direct), true, "/repo"),
        candidate("s2", Provider::Claude, Some(IntegrationMode::Passive), true, "/repo"),
        candidate("s3", Provider::Claude, Some(IntegrationMode::Direct), false, "/repo"),
        candidate("s4", Provider::Codex, Some(IntegrationMode::Direct), true, "/repo"),
        candidate("s5", Provider::Claude, Some(IntegrationMode::Direct), true, "/other"),
        candidate("s6", Provider::Claude, Some(IntegrationMode::Direct), true, "/repo"),
    ];
    assert_eq!(find_unregistered_direct_session(&sessions, &registry, Provider::Claude, "/repo").as_deref(), Some("s6"));
    assert_eq!(find_unregistered_direct_session(&sessions, &registry, Provider::Codex, "/repo").as_deref(), Some("s4"));
    assert_eq!(find_unregistered_direct_session(&sessions, &registry, Provider::Codex, "/other"), None);
}

#[test]
fn first_thread_of_takes_the_first_match_in_order() {
    let entries = vec![
        ("t1".to_string(), "s1".to_string()),
        ("t2".to_string(), "s2".to_string()),
        ("t3".to_string(), "s2".to_string()),
    ];
    assert_eq!(first_thread_of(&entries, "s2"), Some("t2".to_string()));
    assert_eq!(first_thread_of(&entries, "s1"), Some("t1".to_string()));
    assert_eq!(first_thread_of(&entries, "s9"), None);
}
