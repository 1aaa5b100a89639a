use shield_backup::model::{BackupIndex, Snapshot, SnapshotFile, CURRENT_VERSION};
use shield_backup::store::{find_snapshot, load_workspace_index, save_workspace_index, StoreError};

fn record(path: &str) -> SnapshotFile {
    SnapshotFile {
        path: path.to_string(),
        backup_path: format!("blob-{}", path),
        size: 1,
        event_type: "change".to_string(),
        renamed_to: None,
    }
}

fn snapshot(id: &str, timestamp: i64) -> Snapshot {
    Snapshot { id: id.to_string(), timestamp, files: vec![record(id)], message: None }
}

#[test]
fn current_version_is_two() {
    assert_eq!(CURRENT_VERSION, 2);
}

#[test]
fn fresh_index_is_empty_at_version_two() {
    let index = BackupIndex::fresh();
    assert_eq!(index.version, 2);
    assert!(index.snapshots.is_empty());
}

#[test]
fn nothing_decoded_gives_a_fresh_index() {
    let index = load_workspace_index(None);
    assert_eq!(index, BackupIndex { version: 2, snapshots: vec![] });
}

#[test]
fn decoded_index_keeps_its_snapshots_in_order() {
    let decoded = BackupIndex { version: 2, snapshots: vec![snapshot("b", 5), snapshot("a", 9)] };
    let index = load_workspace_index(Some(decoded));
    assert_eq!(index.version, 2);
    assert_eq!(index.snapshots, vec![snapshot("b", 5), snapshot("a", 9)]);
}

#[test]
fn decoded_index_of_another_version_is_taken_over_at_version_two() {
    let decoded = BackupIndex { version: 7, snapshots: vec![snapshot("a", 1)] };
    let index = load_workspace_index(Some(decoded));
    assert_eq!(index.version, 2);
    assert_eq!(index.snapshots, vec![snapshot("a", 1)]);
}

#[test]
fn completed_write_is_ok() {
    assert_eq!(save_workspace_index(None), Ok(()));
}

#[test]
fn failed_write_is_an_io_error_with_the_systems_text() {
    assert_eq!(
        save_workspace_index(Some("disk full".to_string())),
        Err(StoreError::Io("disk full".to_string()))
    );
}

#[test]
fn error_messages() {
    assert_eq!(StoreError::NotFound.message(), "Snapshot not found");
    assert_eq!(StoreError::Io("permission denied".to_string()).message(), "permission denied");
}

#[test]
fn lookup_finds_the_snapshot_with_the_id() {
    let index = BackupIndex {
        version: 2,
        snapshots: vec![snapshot("a", 1), snapshot("b", 2), snapshot("c", 3)],
    };
    assert_eq!(find_snapshot(&index, "a"), Some(0));
    assert_eq!(find_snapshot(&index, "b"), Some(1));
    assert_eq!(find_snapshot(&index, "c"), Some(2));
}

#[test]
fn lookup_of_an_unknown_id_finds_nothing() {
    let index = BackupIndex { version: 2, snapshots: vec![snapshot("a", 1)] };
    assert_eq!(find_snapshot(&index, "z"), None);
    assert_eq!(find_snapshot(&index, ""), None);
    assert_eq!(find_snapshot(&BackupIndex::fresh(), "a"), None);
}

#[test]
fn lookup_takes_the_first_of_two_snapshots_with_one_id() {
    let index = BackupIndex {
        version: 2,
        snapshots: vec![snapshot("a", 1), snapshot("dup", 2), snapshot("dup", 3)],
    };
    assert_eq!(find_snapshot(&index, "dup"), Some(1));
}

#[test]
fn copies_are_equal_to_what_they_copy() {
    let index = BackupIndex {
        version: 2,
        snapshots: vec![
            Snapshot {
                id: "a".to_string(),
                timestamp: 4,
                files: vec![
                    record("x"),
                    SnapshotFile {
                        path: "old".to_string(),
                        backup_path: "b1".to_string(),
                        size: 9,
                        event_type: "rename".to_string(),
                        renamed_to: Some("new".to_string()),
                    },
                ],
                message: Some("note".to_string()),
            },
        ],
    };
    assert_eq!(index.clone(), index);
    assert_eq!(index.snapshots[0].clone(), index.snapshots[0]);
    assert_eq!(index.snapshots[0].files[1].clone(), index.snapshots[0].files[1]);
}
