use orbitdock_server::pending_hooks::{
    PendingClaudeSession, PendingCodexSession, PendingHookRegistry, PendingHookSession, Provider,
};

fn claude(cwd: &str, at: u64) -> PendingHookSession {
    PendingHookSession::Claude(PendingClaudeSession {
        cwd: cwd.to_string(),
        model: Some("model-a".to_string()),
        source: None,
        context_label: None,
        transcript_path: None,
        permission_mode: None,
        agent_type: None,
        terminal_session_id: None,
        terminal_app: None,
        cached_at: at,
    })
}

fn codex(cwd: &str, at: u64) -> PendingHookSession {
    PendingHookSession::Codex(PendingCodexSession {
        cwd: cwd.to_string(),
        model: None,
        transcript_path: Some("/t.jsonl".to_string()),
        cached_at: at,
    })
}

#[test]
fn into_provider_payloads() {
    assert_eq!(claude("/a", 1).into_claude().map(|p| p.cwd), Some("/a".to_string()));
    assert!(claude("/a", 1).into_codex().is_none());
    assert_eq!(codex("/b", 1).into_codex().map(|p| p.cwd), Some("/b".to_string()));
    assert!(codex("/b", 1).into_claude().is_none());
}

#[test]
fn cached_session_is_taken_back_once() {
    let mut registry = PendingHookRegistry::new();
    registry.cache_pending_hook_session("s1".to_string(), claude("/repo", 10));
    assert_eq!(registry.peek_pending_hook_cwd(Provider::Claude, "s1").as_deref(), Some("/repo"));
    assert_eq!(registry.peek_pending_hook_cwd(Provider::Codex, "s1"), None);
    let taken = registry.take_pending_hook_session(Provider::Claude, "s1");
    assert_eq!(taken.and_then(PendingHookSession::into_claude).map(|p| p.cwd), Some("/repo".to_string()));
    assert!(registry.take_pending_hook_session(Provider::Claude, "s1").is_none());
}

#[test]
fn providers_are_kept_apart_and_recaching_replaces() {
    let mut registry = PendingHookRegistry::new();
    registry.cache_pending_hook_session("same".to_string(), claude("/first", 1));
    registry.cache_pending_hook_session("same".to_string(), codex("/codex", 2));
    registry.cache_pending_hook_session("same".to_string(), codex("/codex2", 3));
    assert_eq!(registry.peek_pending_hook_cwd(Provider::Claude, "same").as_deref(), Some("/first"));
    assert_eq!(registry.peek_pending_hook_cwd(Provider::Codex, "same").as_deref(), Some("/codex2"));
    assert!(registry.discard_pending_hook_session(Provider::Codex, "same"));
    assert!(!registry.discard_pending_hook_session(Provider::Codex, "same"));
    assert!(registry.discard_pending_hook_session(Provider::Claude, "same"));
}

#[test]
fn expiry_drops_only_stale_sessions() {
    let mut registry = PendingHookRegistry::new();
    registry.cache_pending_hook_session("old".to_string(), claude("/old", 1_000));
    registry.cache_pending_hook_session("edge".to_string(), codex("/edge", 5_000));
    registry.cache_pending_hook_session("new".to_string(), codex("/new", 9_000));
    registry.expire_pending_hook_sessions(10_000, 5_000);
    assert_eq!(registry.peek_pending_hook_cwd(Provider::Claude, "old"), None);
    assert_eq!(registry.peek_pending_hook_cwd(Provider::Codex, "edge"), None);
    assert_eq!(registry.peek_pending_hook_cwd(Provider::Codex, "new").as_deref(), Some("/new"));
}

#[test]
fn expiry_reaching_before_the_clock_keeps_everything() {
    let mut registry = PendingHookRegistry::new();
    registry.cache_pending_hook_session("a".to_string(), claude("/a", 0));
    registry.expire_pending_hook_sessions(100, 1_000);
    assert_eq!(registry.peek_pending_hook_cwd(Provider::Claude, "a").as_deref(), Some("/a"));
}
