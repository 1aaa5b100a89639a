use shield_backup::listing::get_workspace_snapshots;
use shield_backup::model::{BackupIndex, Snapshot};

fn snapshot(id: &str, timestamp: i64) -> Snapshot {
    Snapshot { id: id.to_string(), timestamp, files: vec![], message: None }
}

fn ids(listed: &[Snapshot]) -> Vec<String> {
    listed.iter().map(|s| s.id.clone()).collect()
}

#[test]
fn listing_is_newest_first_whatever_the_stored_order() {
    let index = BackupIndex {
        version: 2,
        snapshots: vec![
            snapshot("c", 30),
            snapshot("a", 10),
            snapshot("e", 50),
            snapshot("b", 20),
            snapshot("d", 40),
        ],
    };
    let listed = get_workspace_snapshots(index);
    assert_eq!(ids(&listed), vec!["e", "d", "c", "b", "a"]);
    assert_eq!(listed[0], snapshot("e", 50));
}

#[test]
fn listing_of_a_sorted_index_reverses_it() {
    let index = BackupIndex {
        version: 2,
        snapshots: vec![snapshot("a", -5), snapshot("b", 0), snapshot("c", 5)],
    };
    assert_eq!(ids(&get_workspace_snapshots(index)), vec!["c", "b", "a"]);
}

#[test]
fn snapshots_of_one_time_keep_their_stored_order() {
    let index = BackupIndex {
        version: 2,
        snapshots: vec![
            snapshot("x1", 7),
            snapshot("y", 9),
            snapshot("x2", 7),
            snapshot("z", 1),
            snapshot("x3", 7),
        ],
    };
    assert_eq!(ids(&get_workspace_snapshots(index)), vec!["y", "x1", "x2", "x3", "z"]);
}

#[test]
fn listing_keeps_every_snapshot() {
    let index = BackupIndex {
        version: 2,
        snapshots: vec![snapshot("same", 3), snapshot("same", 3), snapshot("other", 4)],
    };
    let listed = get_workspace_snapshots(index);
    assert_eq!(listed.len(), 3);
    assert_eq!(ids(&listed), vec!["other", "same", "same"]);
}

#[test]
fn listing_of_an_empty_index_is_empty() {
    assert!(get_workspace_snapshots(BackupIndex::fresh()).is_empty());
}

#[test]
fn listing_orders_the_extremes() {
    let index = BackupIndex {
        version: 2,
        snapshots: vec![snapshot("min", i64::MIN), snapshot("max", i64::MAX), snapshot("zero", 0)],
    };
    assert_eq!(ids(&get_workspace_snapshots(index)), vec!["max", "zero", "min"]);
}
