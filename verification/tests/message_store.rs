use orbitdock_server::message_store::{write_row, StoredRow};

fn sequences(rows: &[StoredRow]) -> Vec<(String, i64)> {
    rows.iter().map(|r| (r.id.clone(), r.sequence)).collect()
}

#[test]
fn new_rows_are_numbered_after_their_session() {
    let mut rows: Vec<StoredRow> = Vec::new();
    assert_eq!(write_row(&mut rows, "s1", "a", None, "{}", false), 0);
    assert_eq!(write_row(&mut rows, "s1", "b", None, "{}", false), 1);
    assert_eq!(write_row(&mut rows, "s2", "c", None, "{}", false), 0);
    assert_eq!(write_row(&mut rows, "s1", "d", Some(10), "{}", false), 10);
    assert_eq!(write_row(&mut rows, "s1", "e", None, "{}", false), 11);
    assert_eq!(
        sequences(&rows),
        vec![
            ("a".to_string(), 0),
            ("b".to_string(), 1),
            ("c".to_string(), 0),
            ("d".to_string(), 10),
            ("e".to_string(), 11)
        ]
    );
}

#[test]
fn appending_a_known_row_is_dropped_by_id() {
    let mut rows: Vec<StoredRow> = Vec::new();
    write_row(&mut rows, "s1", "a", None, "first", false);
    write_row(&mut rows, "s1", "b", None, "second", false);
    assert_eq!(write_row(&mut rows, "s1", "a", Some(7), "again", false), 0);
    assert_eq!(write_row(&mut rows, "s2", "b", None, "elsewhere", false), 1);
    assert_eq!(rows.len(), 2);
    assert_eq!(rows[0].row_data, "first");
    assert_eq!(rows[1].row_data, "second");
    assert_eq!(rows[1].session_id, "s1");
}

#[test]
fn upserting_a_known_row_keeps_its_number() {
    let mut rows: Vec<StoredRow> = Vec::new();
    write_row(&mut rows, "s1", "a", None, "draft", false);
    write_row(&mut rows, "s1", "b", None, "{}", false);
    assert_eq!(write_row(&mut rows, "s1", "a", None, "final", true), 0);
    assert_eq!(rows.len(), 2);
    assert_eq!(rows[0].row_data, "final");
    assert_eq!(rows[0].sequence, 0);
    assert_eq!(write_row(&mut rows, "s1", "c", None, "new", true), 2);
}
