use orbitdock_server::dashboard::{
    dashboard_activity_summary, dashboard_alert_context, dashboard_conversation_indices,
    dashboard_counts, dashboard_diff_preview,
    dashboard_order, dashboard_preview_text, dashboard_priority, format_tool_context,
    sanitize_dashboard_text, DashboardCountItem, DashboardSortKey, IntegrationMode,
    SessionListStatus,
};
use orbitdock_server::conversation::SessionStatus;
use orbitdock_server::pending_hooks::Provider;

#[test]
fn sanitizing_removes_markdown_markers() {
    assert_eq!(sanitize_dashboard_text("## **Bold** __it__ `code` # x"), "Bold it code x");
    assert_eq!(sanitize_dashboard_text("***"), "*");
    assert_eq!(sanitize_dashboard_text("plain"), "plain");
}

#[test]
fn preview_and_activity_lines() {
    assert_eq!(dashboard_preview_text(None, None), "Waiting for your next message.");
    assert_eq!(dashboard_preview_text(Some("**done**"), Some("ctx")), "done");
    assert_eq!(dashboard_preview_text(None, Some("# ctx")), "ctx");
    assert_eq!(dashboard_activity_summary(Some("Bash"), Some("x"), None), "Running Bash");
    assert_eq!(dashboard_activity_summary(None, None, None), "Processing…");
}

#[test]
fn tool_context_reads_the_tool_input() {
    assert_eq!(format_tool_context("Bash", Some(r#"{"command":"cargo test"}"#)), "cargo test");
    assert_eq!(format_tool_context("Edit", Some(r#"{"file_path":"/repo/src/main.rs"}"#)), "Edit main.rs");
    assert_eq!(format_tool_context("Grep", Some(r#"{"pattern":"TODO"}"#)), "Search for \"TODO\"");
    assert_eq!(format_tool_context("Glob", Some(r#"{"pattern":"**/*.rs"}"#)), "Find files matching **/*.rs");
    assert_eq!(format_tool_context("Bash", Some("not json")), "Wants to run Bash");
    assert_eq!(format_tool_context("Bash", Some(r#"{"cmd":"x"}"#)), "Wants to run Bash");
    assert_eq!(format_tool_context("WebFetch", Some(r#"{"url":"x"}"#)), "Wants to run WebFetch");
    assert_eq!(format_tool_context("Read", Some("")), "Wants to run Read");
    assert_eq!(format_tool_context("Read", None), "Wants to run Read");
}

#[test]
fn alert_context_prefers_question_then_tool() {
    assert_eq!(dashboard_alert_context(Some("Proceed?"), Some("Bash"), None, None, None), "Proceed?");
    assert_eq!(dashboard_alert_context(Some(""), Some("Bash"), None, None, None), "Wants to run Bash");
    assert_eq!(dashboard_alert_context(None, None, None, None, None), "Needs your attention.");
}

#[test]
fn diff_preview_counts_paths_and_lines() {
    let diff = "diff --git a/src/a.rs b/src/a.rs\n--- a/src/a.rs\n+++ b/src/a.rs\n@@ -1 +1,2 @@\n-old\n+new\n+more\ndiff --git a/b.rs b/b.rs\n+++ b/b.rs\n+x\ndiff --git a/c b/c\ndiff --git a/d b/d\n";
    let preview = dashboard_diff_preview(Some(diff)).unwrap();
    assert_eq!(preview.file_count, 4);
    assert_eq!(preview.additions, 3);
    assert_eq!(preview.deletions, 1);
    assert_eq!(preview.file_paths, vec!["src/a.rs", "b.rs", "c"]);
    assert_eq!(dashboard_diff_preview(Some("  \n ")), None);
    assert_eq!(dashboard_diff_preview(None), None);
}

#[test]
fn priorities_and_order() {
    assert_eq!(dashboard_priority(SessionListStatus::Permission), 0);
    assert_eq!(dashboard_priority(SessionListStatus::Ended), 4);
    let key = |s, t: Option<&str>, title: &str| DashboardSortKey {
        list_status: s,
        last_activity_at: t.map(str::to_string),
        display_title: title.to_string(),
    };
    let keys = vec![
        key(SessionListStatus::Reply, Some("2026-01-02"), "b"),
        key(SessionListStatus::Permission, None, "z"),
        key(SessionListStatus::Reply, Some("2026-01-03"), "a"),
        key(SessionListStatus::Reply, Some("2026-01-02"), "a"),
        key(SessionListStatus::Reply, None, "a"),
    ];
    assert_eq!(dashboard_order(&keys), vec![1, 2, 3, 0, 4]);
}

#[test]
fn counts_tally_statuses_and_direct_sessions() {
    let item = |s, p, codex, claude| DashboardCountItem {
        list_status: s,
        provider: p,
        codex_integration_mode: codex,
        claude_integration_mode: claude,
    };
    let items = vec![
        item(SessionListStatus::Permission, Provider::Codex, Some(IntegrationMode::Direct), None),
        item(SessionListStatus::Question, Provider::Claude, None, Some(IntegrationMode::Passive)),
        item(SessionListStatus::Working, Provider::Claude, Some(IntegrationMode::Direct), Some(IntegrationMode::Direct)),
        item(SessionListStatus::Reply, Provider::Codex, None, Some(IntegrationMode::Direct)),
    ];
    let counts = dashboard_counts(&items);
    assert_eq!((counts.attention, counts.running, counts.ready, counts.direct), (2, 1, 1, 2));
}

#[test]
fn dashboard_lists_only_active_sessions() {
    let statuses = vec![
        SessionStatus::Ended,
        SessionStatus::Active,
        SessionStatus::Active,
        SessionStatus::Ended,
        SessionStatus::Active,
    ];
    assert_eq!(dashboard_conversation_indices(&statuses), vec![1, 2, 4]);
    assert!(dashboard_conversation_indices(&Vec::new()).is_empty());
}
