use orbitdock_server::conversation::{
    normalize_legacy_message_kind, parse_control_mode, parse_lifecycle_state,
    parse_session_status, SessionControlMode, SessionLifecycleState, SessionStatus,
    extract_row_content, plan_fork_config, remap_rows_for_fork, row_type_str, select_fork_rows,
    truncate_rows_before_nth_user_row, turn_status_str, ConversationRow, ConversationRowEntry,
    ForkConfigInputs, RowKind, TurnStatus, row_write_effects, UnreadEffect, LAST_MESSAGE_CHARS,
};

fn row(kind: RowKind, id: &str, text: &str) -> ConversationRowEntry {
    ConversationRowEntry {
        session_id: "session-1".to_string(),
        sequence: 0,
        turn_id: None,
        turn_status: TurnStatus::Active,
        row: ConversationRow {
            kind,
            id: id.to_string(),
            text: text.to_string(),
            summary: None,
            command: None,
        },
    }
}

fn user_row(id: &str, content: &str, is_steer: bool) -> ConversationRowEntry {
    row(if is_steer { RowKind::Steer } else { RowKind::User }, id, content)
}

#[test]
fn truncate_counts_real_user_turns_and_skips_steers() {
    let rows = vec![
        user_row("user-1", "first", false),
        user_row("steer-1", "nudge", true),
        user_row("user-2", "second", false),
    ];

    let truncated = truncate_rows_before_nth_user_row(&rows, Some(1));

    assert_eq!(truncated.len(), 2);
    assert_eq!(truncated[0].id(), "user-1");
    assert_eq!(truncated[1].id(), "steer-1");
}

#[test]
fn truncate_without_turn_keeps_all_and_missing_turn_keeps_none() {
    let rows = vec![user_row("u1", "a", false), row(RowKind::Assistant, "a1", "b")];
    assert_eq!(truncate_rows_before_nth_user_row(&rows, None).len(), 2);
    assert_eq!(truncate_rows_before_nth_user_row(&rows, Some(0)).len(), 0);
    assert!(truncate_rows_before_nth_user_row(&rows, Some(5)).is_empty());
}

#[test]
fn fork_rows_are_renumbered_into_the_new_session() {
    let rows = vec![user_row("u1", "a", false), row(RowKind::Tool, "t1", "Read file")];
    let remapped = remap_rows_for_fork(rows, "fork-9");
    assert_eq!(remapped[0].id(), "fork-9:fork:0");
    assert_eq!(remapped[1].id(), "fork-9:fork:1");
    assert!(remapped.iter().all(|e| e.session_id == "fork-9"));
    assert_eq!(remapped[1].row.text, "Read file");
    assert_eq!(remapped[1].row.kind, RowKind::Tool);
}

#[test]
fn fork_prefers_the_fuller_row_set() {
    let a = vec![user_row("u1", "a", false)];
    let b = vec![user_row("u1", "a", false), user_row("u2", "b", false)];
    assert_eq!(select_fork_rows(a.clone(), b.clone()).len(), 2);
    assert_eq!(select_fork_rows(b, a).len(), 2);
    let equal = select_fork_rows(vec![user_row("src", "x", false)], vec![user_row("roll", "y", false)]);
    assert_eq!(equal[0].id(), "src");
}

#[test]
fn fork_config_prefers_requested_values() {
    let plan = plan_fork_config(ForkConfigInputs {
        requested_model: Some("m2".into()),
        requested_approval_policy: None,
        requested_sandbox_mode: None,
        requested_cwd: None,
        source_cwd: Some("/src".into()),
        source_model: Some("m1".into()),
        source_approval_policy: Some("never".into()),
        source_sandbox_mode: None,
    });
    assert_eq!(plan.effective_model.as_deref(), Some("m2"));
    assert_eq!(plan.effective_cwd.as_deref(), Some("/src"));
    assert_eq!(plan.effective_approval_policy.as_deref(), Some("never"));
    assert_eq!(plan.effective_sandbox_mode, None);
}

#[test]
fn row_names_and_content() {
    let shell = ConversationRow {
        kind: RowKind::ShellCommand,
        id: "s1".into(),
        text: "Shell".into(),
        summary: None,
        command: Some("ls -la".into()),
    };
    assert_eq!(row_type_str(&shell), "shell_command");
    assert_eq!(extract_row_content(&shell).as_deref(), Some("ls -la"));
    let ctx = ConversationRow {
        kind: RowKind::Context,
        id: "c1".into(),
        text: "Title".into(),
        summary: Some("Summary".into()),
        command: None,
    };
    assert_eq!(extract_row_content(&ctx).as_deref(), Some("Summary"));
    let approval = ConversationRow { kind: RowKind::Approval, id: "ap-7".into(), text: "t".into(), summary: None, command: None };
    assert_eq!(extract_row_content(&approval).as_deref(), Some("ap-7"));
    assert_eq!(row_type_str(&approval), "approval");
    assert_eq!(turn_status_str(TurnStatus::RolledBack), "rolled_back");
}

#[test]
fn stored_states_are_read_case_insensitively() {
    assert_eq!(parse_lifecycle_state(Some("Resumable")), SessionLifecycleState::Resumable);
    assert_eq!(parse_lifecycle_state(Some("ENDED")), SessionLifecycleState::Ended);
    assert_eq!(parse_lifecycle_state(Some("weird")), SessionLifecycleState::Open);
    assert_eq!(parse_lifecycle_state(None), SessionLifecycleState::Open);
    assert_eq!(parse_session_status("Ended"), SessionStatus::Ended);
    assert_eq!(parse_session_status("active"), SessionStatus::Active);
    assert_eq!(parse_control_mode(Some("DIRECT")), Some(SessionControlMode::Direct));
    assert_eq!(parse_control_mode(Some("passive")), Some(SessionControlMode::Passive));
    assert_eq!(parse_control_mode(Some("")), None);
}

#[test]
fn legacy_steers_are_read_as_steers() {
    let user = user_row("u1", "hi", false).row;
    assert_eq!(normalize_legacy_message_kind("steer", "{}", user.clone()).kind, RowKind::Steer);
    assert_eq!(normalize_legacy_message_kind("user", r#"{"input_kind":"steer"}"#, user.clone()).kind, RowKind::Steer);
    assert_eq!(normalize_legacy_message_kind("user", r#"{"input_kind":"prompt"}"#, user.clone()).kind, RowKind::User);
    assert_eq!(normalize_legacy_message_kind("user", "not json", user).kind, RowKind::User);
    let tool = row(RowKind::Tool, "t", "x").row;
    assert_eq!(normalize_legacy_message_kind("steer", "{}", tool).kind, RowKind::Tool);
}

#[test]
fn appended_assistant_row_sets_last_message_and_counts_unread() {
    let entry = row(RowKind::Assistant, "a-1", "done");
    let effects = row_write_effects(&entry.row, false, false, true);
    assert_eq!(effects.last_message.as_deref(), Some("done"));
    assert!(effects.touches_progress);
    assert_eq!(effects.unread, UnreadEffect::OneMore);
}

#[test]
fn viewed_session_reads_new_rows_at_once() {
    let entry = row(RowKind::Tool, "t-1", "ls");
    let effects = row_write_effects(&entry.row, false, true, true);
    assert_eq!(effects.last_message, None);
    assert_eq!(effects.unread, UnreadEffect::ReadThroughRow);
    let rewritten = row_write_effects(&entry.row, false, false, false);
    assert_eq!(rewritten.unread, UnreadEffect::Unchanged);
}

#[test]
fn user_rows_leave_progress_and_unread_alone() {
    let entry = row(RowKind::User, "u-1", "hello");
    let effects = row_write_effects(&entry.row, true, false, true);
    assert_eq!(effects.last_message.as_deref(), Some("hello"));
    assert!(!effects.touches_progress);
    assert_eq!(effects.unread, UnreadEffect::Unchanged);
}

#[test]
fn last_message_keeps_the_first_two_hundred_characters() {
    let long: String = "é".repeat(250);
    let entry = row(RowKind::Steer, "s-1", &long);
    let effects = row_write_effects(&entry.row, true, false, true);
    let kept = effects.last_message.unwrap();
    assert_eq!(kept.chars().count(), LAST_MESSAGE_CHARS);
    assert_eq!(kept, "é".repeat(200));
}
