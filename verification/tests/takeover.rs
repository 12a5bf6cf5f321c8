use orbitdock_server::session_errors::TakeoverSessionError;
use orbitdock_server::takeover::{
    first_connector_launch, launch_after_failure, takeover_follow_up, ConnectorLaunch,
    ConnectorStartOutcome, TakeoverAction,
};

fn names(actions: &[TakeoverAction]) -> Vec<String> {
    actions
        .iter()
        .map(|a| match a {
            TakeoverAction::ClaimThread { thread_id } => format!("claim:{thread_id}"),
            TakeoverAction::StartEventLoop => "event-loop".to_string(),
            TakeoverAction::PersistModel { model } => format!("model:{model}"),
            TakeoverAction::PersistEffort { effort } => format!("effort:{effort}"),
            TakeoverAction::ActivateDirectRuntime => "activate".to_string(),
            TakeoverAction::ApplyEffort { effort } => format!("apply-effort:{effort}"),
            TakeoverAction::PersistDirectIntegrationMode => "direct".to_string(),
            TakeoverAction::AbortConnector => "abort".to_string(),
            TakeoverAction::MarkPassive => "passive".to_string(),
            TakeoverAction::ReaddSession => "readd".to_string(),
        })
        .collect()
}

fn connector_message(answer: Result<(), TakeoverSessionError>) -> String {
    match answer {
        Err(TakeoverSessionError::ConnectorFailed(message)) => message,
        _ => panic!("expected a connector failure"),
    }
}

#[test]
fn launch_resumes_known_thread_then_falls_back_to_new_thread() {
    let first = first_connector_launch(Some("thread-7".to_string()));
    match &first {
        ConnectorLaunch::Resume { thread_id } => assert_eq!(thread_id, "thread-7"),
        _ => panic!("expected a resume"),
    }
    assert!(matches!(launch_after_failure(&first), Some(ConnectorLaunch::NewThread)));
    let fresh = first_connector_launch(None);
    assert!(matches!(fresh, ConnectorLaunch::NewThread));
    assert!(launch_after_failure(&fresh).is_none());
}

#[test]
fn started_takeover_claims_thread_and_persists_settings() {
    let (actions, answer) = takeover_follow_up(
        ConnectorStartOutcome::Started { thread_id: "t-1".to_string() },
        Some("gpt-5".to_string()),
        Some("high".to_string()),
    );
    assert!(answer.is_ok());
    assert_eq!(
        names(&actions),
        vec![
            "claim:t-1",
            "event-loop",
            "model:gpt-5",
            "effort:high",
            "activate",
            "apply-effort:high",
            "direct"
        ]
    );

    let (actions, answer) = takeover_follow_up(
        ConnectorStartOutcome::Started { thread_id: "t-2".to_string() },
        None,
        None,
    );
    assert!(answer.is_ok());
    assert_eq!(names(&actions), vec!["claim:t-2", "event-loop", "activate", "direct"]);
}

#[test]
fn failed_takeover_returns_session_to_passive() {
    let (actions, answer) = takeover_follow_up(
        ConnectorStartOutcome::Failed("no binary".to_string()),
        Some("gpt-5".to_string()),
        None,
    );
    assert_eq!(names(&actions), vec!["passive", "readd"]);
    assert_eq!(connector_message(answer), "no binary");

    let (actions, answer) =
        takeover_follow_up(ConnectorStartOutcome::TaskPanicked("boom".to_string()), None, None);
    assert_eq!(names(&actions), vec!["passive", "readd"]);
    assert_eq!(connector_message(answer), "Connector task panicked: boom");

    let (actions, answer) = takeover_follow_up(ConnectorStartOutcome::TimedOut, None, None);
    assert_eq!(names(&actions), vec!["abort", "passive", "readd"]);
    assert_eq!(connector_message(answer), "Codex takeover connector failed or timed out");
}
