use orbitdock_server::conversation::{ConversationRow, ConversationRowEntry, RowKind, TurnStatus};
use orbitdock_server::persist_sync::{
    mission_link, persist_command_from_sync, sync_command_of, sync_mirror,
    sync_with_assigned_sequence, touched_mission_ids, MissionLink, PersistCommand,
    PersistCommandKind, SyncCommand, SyncMirror,
};

#[derive(Debug, Clone, PartialEq)]
enum Payload {
    ModelUpdate { session_id: String, model: String },
}

fn sample_row_entry(sequence: u64) -> ConversationRowEntry {
    ConversationRowEntry {
        session_id: "session-1".to_string(),
        sequence,
        turn_id: None,
        turn_status: TurnStatus::Active,
        row: ConversationRow {
            kind: RowKind::Assistant,
            id: "row-1".to_string(),
            text: "hello".to_string(),
            summary: None,
            command: None,
        },
    }
}

fn sample_non_syncable_persist_commands() -> Vec<PersistCommand<Payload>> {
    vec![
        PersistCommand::SetConfig {
            key: "workspace_provider".into(),
            value: "local".into(),
        },
        PersistCommand::MissionCreate {
            id: "mission-1".into(),
            name: "Phase 2".into(),
            repo_root: "/repo".into(),
            tracker_kind: "github".into(),
            provider: "codex".into(),
            config_json: Some("{\"workspace\":\"local\"}".into()),
            prompt_template: Some("Template".into()),
            mission_file_path: Some("/repo/MISSION.md".into()),
            tracker_api_key: Some("encrypted".into()),
        },
        PersistCommand::MissionUpdate {
            id: "mission-1".into(),
            name: Some("Phase 2 updated".into()),
            enabled: Some(true),
            paused: Some(false),
            tracker_kind: Some("github".into()),
            config_json: Some("{\"workspace\":\"remote\"}".into()),
            prompt_template: Some("Updated".into()),
            parse_error: Some(Some("warning".into())),
            mission_file_path: Some(Some("/repo/MISSION.md".into())),
        },
        PersistCommand::MissionSetTrackerKey {
            mission_id: "mission-1".into(),
            key: Some("secret".into()),
        },
        PersistCommand::MissionDelete {
            id: "mission-1".into(),
        },
    ]
}

#[test]
fn non_syncable_commands_are_filtered_out() {
    for persist in sample_non_syncable_persist_commands() {
        assert!(
            sync_command_of(persist).is_none(),
            "control-plane config and mission admin commands should not sync"
        );
    }
    for persist in sample_non_syncable_persist_commands() {
        assert!(sync_with_assigned_sequence(persist, 3).is_none());
    }
}

#[test]
fn row_sync_requires_authoritative_sequence() {
    let persist = || PersistCommand::<Payload>::RowAppend {
        session_id: "session-1".into(),
        entry: sample_row_entry(0),
        viewer_present: true,
        assigned_sequence: None,
    };
    assert!(
        sync_command_of(persist()).is_none(),
        "pre-persist row commands should not sync without a DB-assigned sequence"
    );
    let sync = sync_with_assigned_sequence(persist(), 0)
        .expect("row append should sync once the DB sequence is known");
    let restored = persist_command_from_sync(sync);
    match restored {
        PersistCommand::RowAppend { assigned_sequence, entry, .. } => {
            assert_eq!(assigned_sequence, Some(0));
            assert_eq!(entry.sequence, 0);
        },
        other => panic!("expected row append after restore, got {other:?}"),
    }
}

#[test]
fn rows_mirror_under_the_database_sequence() {
    let persist = PersistCommand::<Payload>::RowUpsert {
        session_id: "session-1".into(),
        entry: sample_row_entry(3),
        viewer_present: false,
        assigned_sequence: None,
    };
    match sync_with_assigned_sequence(persist, 41) {
        Some(SyncCommand::RowUpsert { entry, sequence, viewer_present, session_id }) => {
            assert_eq!(sequence, 41);
            assert_eq!(entry.sequence, 41);
            assert!(!viewer_present);
            assert_eq!(session_id, "session-1");
        },
        other => panic!("expected row upsert, got {other:?}"),
    }
    let replayed = persist_command_from_sync(SyncCommand::<Payload>::RowAppend {
        session_id: "session-1".into(),
        entry: sample_row_entry(5),
        viewer_present: true,
        sequence: 9,
    });
    match replayed {
        PersistCommand::RowAppend { entry, assigned_sequence, .. } => {
            assert_eq!(entry.sequence, 9);
            assert_eq!(assigned_sequence, Some(9));
        },
        other => panic!("expected row append, got {other:?}"),
    }
}

#[test]
fn mirrored_commands_round_trip() {
    let payload = Payload::ModelUpdate { session_id: "session-1".into(), model: "gpt-5.4".into() };
    let sync =
        sync_command_of(PersistCommand::Mirrored(payload.clone())).expect("model updates should sync");
    let restored = persist_command_from_sync(sync);
    match sync_with_assigned_sequence(restored, 0) {
        Some(SyncCommand::Mirrored(p)) => assert_eq!(p, payload),
        other => panic!("expected the same payload, got {other:?}"),
    }
}

#[test]
fn kinds_mirror_as_their_commands_do() {
    for kind in [PersistCommandKind::SetConfig, PersistCommandKind::MissionDelete] {
        assert_eq!(sync_mirror(kind), SyncMirror::Never);
    }
    assert_eq!(sync_mirror(PersistCommandKind::RowAppend), SyncMirror::WithAssignedSequence);
    assert_eq!(sync_mirror(PersistCommandKind::ModelUpdate), SyncMirror::Immediately);
}

#[test]
fn mission_issue_commands_name_their_mission() {
    assert_eq!(mission_link(PersistCommandKind::MissionIssueUpdateState), MissionLink::Named);
    assert_eq!(mission_link(PersistCommandKind::SessionCreate), MissionLink::Named);
    assert_eq!(mission_link(PersistCommandKind::RowAppend), MissionLink::ThroughSession);
    assert_eq!(mission_link(PersistCommandKind::ModelUpdate), MissionLink::ThroughSession);
    assert_eq!(mission_link(PersistCommandKind::ApprovalDecision), MissionLink::Unrelated);
    assert_eq!(mission_link(PersistCommandKind::MissionDelete), MissionLink::Unrelated);
}

#[test]
fn touched_missions_are_listed_once_in_order() {
    let touched = vec![
        "mission-2".to_string(),
        "mission-1".to_string(),
        "mission-2".to_string(),
        "mission-0".to_string(),
    ];
    let ids = touched_mission_ids(&Some("mission-1".to_string()), &touched);
    assert_eq!(ids, vec!["mission-0", "mission-1", "mission-2"]);
    assert_eq!(touched_mission_ids(&None, &Vec::new()), Vec::<String>::new());
    assert_eq!(
        touched_mission_ids(&Some("mission-1".to_string()), &Vec::new()),
        vec!["mission-1"]
    );
}
