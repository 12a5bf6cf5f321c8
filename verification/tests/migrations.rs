use orbitdock_server::migrations::{plan_legacy_import, MigrationInfo};

fn migration(version: i32, name: &str) -> MigrationInfo {
    MigrationInfo { version, name: name.to_string(), checksum: format!("sum{version}") }
}

#[test]
fn legacy_versions_are_imported_in_runner_order() {
    let legacy = vec![(2i64, "t2".to_string()), (1, "t1".to_string()), (2, "t2b".to_string()), (9, "t9".to_string())];
    let migrations = vec![migration(1, "init"), migration(2, "sessions"), migration(3, "usage")];
    let plan = plan_legacy_import(0, true, &legacy, &migrations);
    let rows: Vec<(i32, &str, &str, &str)> = plan
        .iter()
        .map(|r| (r.version, r.name.as_str(), r.applied_on.as_str(), r.checksum.as_str()))
        .collect();
    assert_eq!(rows, vec![(1, "init", "t1", "sum1"), (2, "sessions", "t2b", "sum2")]);
}

#[test]
fn nothing_is_imported_once_history_exists_or_without_legacy_rows() {
    let legacy = vec![(1i64, "t1".to_string())];
    let migrations = vec![migration(1, "init")];
    assert!(plan_legacy_import(3, true, &legacy, &migrations).is_empty());
    assert!(plan_legacy_import(0, false, &legacy, &migrations).is_empty());
    assert!(plan_legacy_import(0, true, &Vec::new(), &migrations).is_empty());
}
