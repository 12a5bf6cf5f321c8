use orbitdock_server::housekeeping::{
    orphaned_image_dirs, run_housekeeping, DirEntryInfo, ImageDirInfo, ROOT_LOG_MAX_BYTES,
};

const DAY: i128 = 24 * 60 * 60 * 1_000_000_000;
const NOW: i128 = 20_000 * DAY;

fn file(name: &str, modified: Option<i128>, len: u64) -> DirEntryInfo {
    DirEntryInfo {
        file_name: Some(name.to_string()),
        is_file: true,
        metadata_len: Some(len),
        modified_nanos: modified,
    }
}

#[test]
fn prune_old_logs_preserves_active_log() {
    let logs = vec![
        file("server.log", Some(NOW), 6),
        file("server.log.2026-03-27", Some(NOW), 6),
    ];
    let plan = run_housekeeping(&logs, &Vec::new(), NOW);
    assert!(plan.delete_logs.is_empty());
}

#[test]
fn truncate_root_logs_caps_large_files() {
    let data = vec![
        file("small.log", Some(NOW), 4),
        file("big.log", Some(NOW), ROOT_LOG_MAX_BYTES + 1),
        file("big.json", Some(NOW), ROOT_LOG_MAX_BYTES + 1),
    ];
    let plan = run_housekeeping(&Vec::new(), &data, NOW);
    assert_eq!(plan.truncate_root_logs, vec![1]);
}

#[test]
fn old_rotated_logs_are_deleted_but_never_the_active_one() {
    let logs = vec![
        file("server.log", Some(NOW - 30 * DAY), 6),
        file("server.log.2026-01-01", Some(NOW - 8 * DAY), 6),
        file("server.log.2026-03-20", Some(NOW - 7 * DAY), 6),
        file("server.log.unknown", None, 6),
        DirEntryInfo { file_name: None, is_file: true, metadata_len: Some(1), modified_nanos: Some(0) },
        DirEntryInfo { file_name: Some("dir".into()), is_file: false, metadata_len: Some(1), modified_nanos: Some(0) },
    ];
    let plan = run_housekeeping(&logs, &Vec::new(), NOW);
    assert_eq!(plan.delete_logs, vec![1, 4]);
}

#[test]
fn stale_root_logs_are_truncated_and_unreadable_times_count_as_old() {
    let data = vec![
        file("hooks.log", Some(NOW - 4 * DAY), 10),
        file("cli.log", Some(NOW - 2 * DAY), 10),
        file("codex.log", None, 10),
        DirEntryInfo { file_name: Some("x.log".into()), is_file: true, metadata_len: None, modified_nanos: None },
    ];
    let plan = run_housekeeping(&Vec::new(), &data, NOW);
    assert_eq!(plan.truncate_root_logs, vec![0, 2]);
}

#[test]
fn database_cutoffs_reach_back_thirty_and_sixty_days() {
    let plan = run_housekeeping(&Vec::new(), &Vec::new(), NOW);
    assert_eq!(plan.usage_events_cutoff, "-30 days");
    assert_eq!(plan.session_messages_cutoff, "-60 days");
}

#[test]
fn only_image_dirs_without_messages_are_removed() {
    let entries = vec![
        ImageDirInfo { is_dir: true, file_name: Some("s1".into()), has_messages: Some(false) },
        ImageDirInfo { is_dir: true, file_name: Some("s2".into()), has_messages: Some(true) },
        ImageDirInfo { is_dir: true, file_name: Some("s3".into()), has_messages: None },
        ImageDirInfo { is_dir: false, file_name: Some("s4".into()), has_messages: Some(false) },
        ImageDirInfo { is_dir: true, file_name: None, has_messages: Some(false) },
    ];
    assert_eq!(orphaned_image_dirs(&entries), vec![0]);
}
