use orbitdock_server::sync::{
    check_batch_ack, plan_workspace_sync_batch, SyncAckCheck, SyncAckShortfall, SyncBatchError,
    SyncEnvelope, SyncSequencer, WorkspaceSyncTarget,
};
use orbitdock_server::sync_writer::{
    flush_step, is_spool_envelope_file, plan_spool_drain, stable_order_by_key, FlushAction,
    FlushEvent, FlushPhase, SyncWriterAction, SyncWriterConfig, SyncWriterCore,
};

fn target() -> WorkspaceSyncTarget {
    WorkspaceSyncTarget {
        workspace_id: "workspace-1".to_string(),
        mission_id: Some("mission-1".to_string()),
        acked_through: 0,
    }
}

fn envelope(sequence: u64, workspace: &str) -> SyncEnvelope<&'static str> {
    SyncEnvelope {
        sequence,
        workspace_id: workspace.to_string(),
        timestamp: "2026-03-24T12:00:00Z".to_string(),
        command: "set-summary",
    }
}

#[test]
fn apply_workspace_sync_batch_rejects_sequence_gaps() {
    let err = plan_workspace_sync_batch(&target(), 0, &vec![envelope(2, "workspace-1")]).unwrap_err();
    assert!(err.message().contains("sequence gap"));
}

#[test]
fn apply_workspace_sync_batch_accepts_heartbeat_only() {
    let result = plan_workspace_sync_batch::<&str>(&target(), 0, &vec![]).unwrap();
    assert_eq!(result.acked_through, 0);
}

#[test]
fn contiguous_batch_is_replayed_and_acked() {
    let batch = vec![envelope(1, "workspace-1"), envelope(2, "workspace-1")];
    let plan = plan_workspace_sync_batch(&target(), 0, &batch).unwrap();
    assert_eq!(plan.apply, vec![0, 1]);
    assert_eq!(plan.acked_through, 2);
}

#[test]
fn partially_acked_batch_must_restart_after_the_ack() {
    let batch = vec![envelope(3, "workspace-1"), envelope(4, "workspace-1"), envelope(5, "workspace-1")];
    let err = plan_workspace_sync_batch(&target(), 4, &batch).unwrap_err();
    assert_eq!(err, SyncBatchError::OverlapsAcked { acked: 4, restart: 5 });
    let again = plan_workspace_sync_batch(&target(), 5, &batch).unwrap();
    assert!(again.apply.is_empty());
    assert_eq!(again.acked_through, 5);
}

#[test]
fn batch_errors_are_reported_by_kind() {
    let foreign = vec![envelope(1, "workspace-2")];
    assert_eq!(
        plan_workspace_sync_batch(&target(), 0, &foreign).unwrap_err(),
        SyncBatchError::WorkspaceMismatch {
            expected_workspace: "workspace-1".to_string(),
            got_workspace: "workspace-2".to_string()
        }
    );
    let holey = vec![envelope(1, "workspace-1"), envelope(3, "workspace-1")];
    let err = plan_workspace_sync_batch(&target(), 0, &holey).unwrap_err();
    assert_eq!(err, SyncBatchError::NonContiguous { expected: 2, got: 3 });
    assert_eq!(err.message(), "non-contiguous sequence: expected 2, got 3");
    let gap = plan_workspace_sync_batch(&target(), 0, &vec![envelope(2, "workspace-1")]).unwrap_err();
    assert_eq!(gap.message(), "sequence gap: expected 1, got 2");
}

#[test]
fn sequencer_numbers_commands_contiguously() {
    let mut sequencer = SyncSequencer::restore(None);
    assert_eq!(sequencer.next_sequence, 1);
    let ws = "workspace-1".to_string();
    let ts = "t".to_string();
    let first = sequencer.allocate_envelopes(vec!["a", "b"], &ws, &ts);
    let second = sequencer.allocate_envelopes(vec!["c"], &ws, &ts);
    let seqs: Vec<u64> = first.iter().chain(second.iter()).map(|e| e.sequence).collect();
    assert_eq!(seqs, vec![1, 2, 3]);
    assert_eq!(second[0].command, "c");
    assert_eq!(sequencer.next_sequence, 4);
    assert_eq!(SyncSequencer::restore(Some(0)).next_sequence, 1);
    assert_eq!(SyncSequencer::restore(Some(42)).next_sequence, 42);
}

#[test]
fn allocated_batch_is_accepted_by_the_control_plane() {
    let mut sequencer = SyncSequencer::restore(Some(6));
    let ws = "workspace-1".to_string();
    let batch = sequencer.allocate_envelopes(vec!["x", "y", "z"], &ws, &"t".to_string());
    let plan = plan_workspace_sync_batch(&target(), 5, &batch).unwrap();
    assert_eq!(plan.acked_through, 8);
    assert_eq!(check_batch_ack(Some(8), Some(plan.acked_through)), Ok(SyncAckCheck::Covered));
}

#[test]
fn ack_check_rejects_short_acks() {
    assert_eq!(check_batch_ack(None, None), Ok(SyncAckCheck::Covered));
    assert_eq!(check_batch_ack(Some(5), None), Ok(SyncAckCheck::MissingAck));
    assert_eq!(
        check_batch_ack(Some(5), Some(4)),
        Err(SyncAckShortfall { acked_through: 4, last_sequence: 5 })
    );
}

#[test]
fn writer_config_trims_trailing_slashes() {
    let config = SyncWriterConfig::new(
        "workspace-1".to_string(),
        "http://sync.example.test//".to_string(),
        "token-1".to_string(),
        "/tmp/spool".to_string(),
    );
    assert_eq!(config.server_url, "http://sync.example.test");
    assert_eq!(config.batch_size, 50);
}

#[test]
fn writer_flushes_full_batches_and_heartbeats_when_idle() {
    let mut core: SyncWriterCore<u32> = SyncWriterCore::new(2, SyncSequencer::restore(None));
    assert_eq!(core.on_heartbeat_tick(), SyncWriterAction::Heartbeat);
    assert_eq!(core.on_flush_tick(), SyncWriterAction::Wait);
    assert_eq!(core.on_command(1), SyncWriterAction::Wait);
    assert_eq!(core.on_heartbeat_tick(), SyncWriterAction::Wait);
    assert_eq!(core.on_flush_tick(), SyncWriterAction::Flush);
    assert_eq!(core.on_command(2), SyncWriterAction::Flush);
    assert_eq!(core.take_pending(), vec![1, 2]);
    assert!(core.pending.is_empty());
}

#[test]
fn spool_drain_sorts_by_sequence_and_batches() {
    assert_eq!(stable_order_by_key(&vec![5, 1, 5, 0]), vec![3, 1, 0, 2]);
    let batches = plan_spool_drain(&vec![9, 3, 7, 1, 5], 2);
    assert_eq!(batches, vec![vec![3, 1], vec![4, 2], vec![0]]);
    assert!(plan_spool_drain(&vec![], 3).is_empty());
}

#[test]
fn flush_drains_spool_then_posts_or_spools() {
    let (phase, action) = flush_step(FlushPhase::Idle, FlushEvent::Start { heartbeat_only: false, pending: 0 });
    assert_eq!((phase, action), (FlushPhase::Idle, FlushAction::Done));
    let (phase, action) = flush_step(FlushPhase::Idle, FlushEvent::Start { heartbeat_only: false, pending: 3 });
    assert_eq!(action, FlushAction::DrainSpool);
    assert_eq!(flush_step(phase, FlushEvent::DrainFailed).1, FlushAction::SpoolCommands);
    let (posting, post) = flush_step(phase, FlushEvent::DrainSucceeded);
    assert_eq!(post, FlushAction::PostEnvelopes);
    assert_eq!(flush_step(posting, FlushEvent::PostFailed).1, FlushAction::SpoolEnvelopes);
    assert_eq!(flush_step(posting, FlushEvent::PostSucceeded), (FlushPhase::Idle, FlushAction::Done));
}

#[test]
fn heartbeat_flush_posts_an_empty_batch_and_tolerates_failure() {
    let (phase, action) = flush_step(FlushPhase::Idle, FlushEvent::Start { heartbeat_only: true, pending: 5 });
    assert_eq!(action, FlushAction::DrainSpool);
    assert_eq!(flush_step(phase, FlushEvent::DrainFailed).1, FlushAction::Done);
    let (posting, post) = flush_step(phase, FlushEvent::DrainSucceeded);
    assert_eq!(post, FlushAction::PostHeartbeat);
    assert_eq!(flush_step(posting, FlushEvent::PostFailed).1, FlushAction::Done);
}

#[test]
fn spool_files_are_json_other_than_sequence_state() {
    assert!(is_spool_envelope_file(Some("json"), Some("1700000000000-4")));
    assert!(!is_spool_envelope_file(Some("json"), Some("sequence-state")));
    assert!(!is_spool_envelope_file(Some("tmp"), Some("x")));
    assert!(!is_spool_envelope_file(None, Some("x")));
}

#[test]
fn ack_shortfall_message() {
    let shortfall = SyncAckShortfall { acked_through: 3, last_sequence: 5 };
    assert_eq!(shortfall.message(), "sync acked through 3, but batch required at least 5");
}
