use orbitdock_server::dispatch::{
    after_prompt_send, answer_record_text, answer_result, permission_decision, route_prompt,
    route_session_command, ApprovalResolution, ConnectorRoute, PermissionGrantScope, PromptAction,
    PromptPlan, PromptSendOutcome,
};
use orbitdock_server::session_errors::DispatchMessageError;

#[test]
fn prompts_prefer_the_codex_connector() {
    assert_eq!(route_prompt(true, true, true), Ok(ConnectorRoute::Codex));
    assert_eq!(route_prompt(true, false, true), Ok(ConnectorRoute::Claude));
    assert_eq!(route_prompt(true, false, false), Err(DispatchMessageError::ConnectorUnavailable));
    assert_eq!(route_prompt(false, true, true), Err(DispatchMessageError::SessionNotFound));
}

#[test]
fn session_commands_need_a_live_connector() {
    assert_eq!(route_session_command(true, false), Some(ConnectorRoute::Codex));
    assert_eq!(route_session_command(false, true), Some(ConnectorRoute::Claude));
    assert_eq!(route_session_command(false, false), None);
}

#[test]
fn permission_responses_are_recorded_by_scope() {
    assert_eq!(permission_decision(true, Some(PermissionGrantScope::Session)), "denied");
    assert_eq!(
        permission_decision(false, Some(PermissionGrantScope::Session)),
        "approved_for_session"
    );
    assert_eq!(permission_decision(false, Some(PermissionGrantScope::Turn)), "approved");
    assert_eq!(permission_decision(false, None), "approved");
}

#[test]
fn stale_answers_report_the_request_now_pending() {
    let stale = answer_result(Some(ApprovalResolution {
        resolved: false,
        next_pending_request_id: Some("req-2".to_string()),
        approval_version: 5,
    }));
    assert_eq!(stale.outcome, "stale");
    assert_eq!(stale.active_request_id.as_deref(), Some("req-2"));
    assert_eq!(stale.approval_version, 5);

    let applied = answer_result(Some(ApprovalResolution {
        resolved: true,
        next_pending_request_id: None,
        approval_version: 6,
    }));
    assert_eq!(applied.outcome, "applied");
    assert_eq!(applied.approval_version, 6);

    let unreported = answer_result(None);
    assert_eq!(unreported.outcome, "applied");
    assert_eq!(unreported.active_request_id, None);
    assert_eq!(unreported.approval_version, 0);
}

#[test]
fn empty_answer_records_selected_answers_line_by_line() {
    let selected = vec!["Yes".to_string(), "Use main".to_string()];
    assert_eq!(answer_record_text("", &selected), "Yes\nUse main");
    assert_eq!(answer_record_text("Typed answer", &selected), "Typed answer");
    assert_eq!(answer_record_text("", &Vec::new()), "");
}

#[test]
fn closed_channel_detaches_and_adds_no_row() {
    let plan = PromptPlan {
        action_model: Some("gpt-5".to_string()),
        connector_effort: None,
        first_prompt: Some("hello".to_string()),
        session_effort_update: None,
    };
    let (actions, result) = after_prompt_send(ConnectorRoute::Codex, plan, PromptSendOutcome::ChannelClosed);
    assert_eq!(
        actions,
        vec![
            PromptAction::DropChannel(ConnectorRoute::Codex),
            PromptAction::MarkDetached(ConnectorRoute::Codex),
        ]
    );
    assert_eq!(result, Err(DispatchMessageError::ConnectorUnavailable));
}

#[test]
fn delivered_prompt_records_row_then_updates() {
    let plan = PromptPlan {
        action_model: Some("gpt-5".to_string()),
        connector_effort: Some("high".to_string()),
        first_prompt: Some("hello".to_string()),
        session_effort_update: Some("high".to_string()),
    };
    let (actions, result) = after_prompt_send(ConnectorRoute::Claude, plan, PromptSendOutcome::Delivered);
    assert_eq!(result, Ok(()));
    assert_eq!(
        actions,
        vec![
            PromptAction::AddUserRow,
            PromptAction::PersistPromptIncrement { first_prompt: Some("hello".to_string()) },
            PromptAction::ApplyFirstPrompt("hello".to_string()),
            PromptAction::UpdateModel("gpt-5".to_string()),
            PromptAction::UpdateEffort("high".to_string()),
            PromptAction::MarkWorking,
        ]
    );
    let bare = PromptPlan { action_model: None, connector_effort: None, first_prompt: None, session_effort_update: None };
    let (actions, _) = after_prompt_send(ConnectorRoute::Codex, bare, PromptSendOutcome::Delivered);
    assert_eq!(
        actions,
        vec![
            PromptAction::AddUserRow,
            PromptAction::PersistPromptIncrement { first_prompt: None },
            PromptAction::MarkWorking,
        ]
    );
}
