use shield_backup::model::{BackupIndex, Snapshot, SnapshotFile};
use shield_backup::paths::StorePath;
use shield_backup::prune::{
    clean_old_snapshots, clean_old_snapshots_at, freed_bytes, is_expired_at, PrunePlan,
    MILLIS_PER_DAY,
};

fn record(backup_path: &str) -> SnapshotFile {
    SnapshotFile {
        path: format!("live-{}", backup_path),
        backup_path: backup_path.to_string(),
        size: 7,
        event_type: "change".to_string(),
        renamed_to: None,
    }
}

fn snapshot(id: &str, timestamp: i64, blobs: &[&str]) -> Snapshot {
    Snapshot {
        id: id.to_string(),
        timestamp,
        files: blobs.iter().map(|b| record(b)).collect(),
        message: None,
    }
}

fn blob(root: &str, backup_path: &str) -> StorePath {
    StorePath {
        root: root.to_string(),
        segments: vec![".shield".to_string(), "snapshots".to_string(), backup_path.to_string()],
    }
}

#[test]
fn a_day_has_86_400_000_milliseconds() {
    assert_eq!(MILLIS_PER_DAY, 86_400_000);
}

#[test]
fn cutoff_is_now_minus_days_times_a_day() {
    let now: i64 = 1_000_000_000_000;
    let cutoff = now - 3 * 86_400_000;
    assert_eq!(cutoff, 999_740_800_000);
    assert!(is_expired_at(cutoff - 1, now, 3));
    assert!(!is_expired_at(cutoff, now, 3));
    assert!(!is_expired_at(cutoff + 1, now, 3));
}

#[test]
fn with_zero_days_the_cutoff_is_now() {
    assert!(is_expired_at(99, 100, 0));
    assert!(!is_expired_at(100, 100, 0));
    assert!(!is_expired_at(101, 100, 0));
}

#[test]
fn a_negative_age_moves_the_cutoff_into_the_future() {
    assert!(is_expired_at(100 + 86_400_000 - 1, 100, -1));
    assert!(!is_expired_at(100 + 86_400_000, 100, -1));
}

#[test]
fn extreme_ages_do_not_overflow() {
    assert!(!is_expired_at(i64::MIN, i64::MAX, i64::MAX));
    assert!(is_expired_at(i64::MAX, i64::MIN, i64::MIN));
    assert!(!is_expired_at(i64::MIN, i64::MIN, 0));
    assert!(!is_expired_at(0, i64::MAX, i64::MAX));
}

#[test]
fn old_snapshots_go_and_the_others_keep_their_order() {
    let day = 86_400_000;
    let now = 100 * day;
    let mut index = BackupIndex {
        version: 2,
        snapshots: vec![
            snapshot("new-1", now - day, &["n1"]),
            snapshot("old-1", now - 10 * day, &["o1", "o2"]),
            snapshot("edge", now - 7 * day, &["e1"]),
            snapshot("old-2", now - 7 * day - 1, &["o3"]),
            snapshot("new-2", now, &[]),
        ],
    };
    let plan = clean_old_snapshots_at(&mut index, "/w", now, 7);
    assert_eq!(
        plan,
        PrunePlan {
            removed: 2,
            blobs: vec![blob("/w", "o1"), blob("/w", "o2"), blob("/w", "o3")],
        }
    );
    assert_eq!(index.version, 2);
    assert_eq!(
        index.snapshots,
        vec![
            snapshot("new-1", now - day, &["n1"]),
            snapshot("edge", now - 7 * day, &["e1"]),
            snapshot("new-2", now, &[]),
        ]
    );
}

#[test]
fn pruning_with_zero_days_drains_the_index_and_a_second_prune_finds_nothing() {
    let now = 1_000;
    let mut index = BackupIndex {
        version: 2,
        snapshots: vec![snapshot("a", 10, &["a1", "a2"]), snapshot("b", 999, &["b1"])],
    };
    let plan = clean_old_snapshots_at(&mut index, "/w", now, 0);
    assert_eq!(plan.removed, 2);
    assert_eq!(plan.blobs, vec![blob("/w", "a1"), blob("/w", "a2"), blob("/w", "b1")]);
    assert!(index.snapshots.is_empty());
    assert_eq!(freed_bytes(&vec![Some(5), None, Some(11)]), Some(16));

    let again = clean_old_snapshots_at(&mut index, "/w", now + 50, 0);
    assert_eq!(again, PrunePlan { removed: 0, blobs: vec![] });
    assert!(index.snapshots.is_empty());
    assert_eq!(freed_bytes(&vec![]), Some(0));
}

#[test]
fn a_snapshot_taken_now_survives_a_prune_with_zero_days() {
    let mut index = BackupIndex { version: 2, snapshots: vec![snapshot("a", 1_000, &["a1"])] };
    let plan = clean_old_snapshots_at(&mut index, "/w", 1_000, 0);
    assert_eq!(plan, PrunePlan { removed: 0, blobs: vec![] });
    assert_eq!(index.snapshots, vec![snapshot("a", 1_000, &["a1"])]);
}

#[test]
fn pruning_twice_at_the_same_time_is_pruning_once() {
    let day = 86_400_000;
    let now = 50 * day;
    let mut index = BackupIndex {
        version: 2,
        snapshots: vec![
            snapshot("a", now - 3 * day, &["a1"]),
            snapshot("b", now - day, &["b1"]),
        ],
    };
    let first = clean_old_snapshots_at(&mut index, "/w", now, 2);
    assert_eq!(first.removed, 1);
    let kept = index.clone();
    let second = clean_old_snapshots_at(&mut index, "/w", now, 2);
    assert_eq!(second, PrunePlan { removed: 0, blobs: vec![] });
    assert_eq!(index, kept);
}

#[test]
fn pruning_keeps_the_version_of_the_index() {
    let mut index = BackupIndex { version: 5, snapshots: vec![snapshot("a", 0, &[])] };
    clean_old_snapshots_at(&mut index, "/w", 10, 0);
    assert_eq!(index.version, 5);
}

#[test]
fn freed_bytes_are_the_sum_of_the_sizes_that_were_there() {
    assert_eq!(freed_bytes(&vec![Some(1), Some(2), None, Some(40)]), Some(43));
    assert_eq!(freed_bytes(&vec![None, None]), Some(0));
    assert_eq!(freed_bytes(&vec![Some(u64::MAX)]), Some(u64::MAX));
    assert_eq!(freed_bytes(&vec![Some(u64::MAX - 1), None, Some(1)]), Some(u64::MAX));
}

#[test]
fn freed_bytes_beyond_a_u64_are_none() {
    assert_eq!(freed_bytes(&vec![Some(u64::MAX), Some(1)]), None);
    assert_eq!(freed_bytes(&vec![Some(u64::MAX), Some(1), Some(3)]), None);
}

#[test]
fn pruning_by_the_clock_drops_what_is_older_than_the_time_it_read() {
    let mut index = BackupIndex {
        version: 2,
        snapshots: vec![snapshot("ancient", 0, &["x"]), snapshot("far-future", i64::MAX, &["y"])],
    };
    let (now, plan) = clean_old_snapshots(&mut index, "/w", 0);
    assert!(now > 1_600_000_000_000);
    assert!(now < i64::MAX);
    assert_eq!(plan, PrunePlan { removed: 1, blobs: vec![blob("/w", "x")] });
    assert_eq!(index.snapshots, vec![snapshot("far-future", i64::MAX, &["y"])]);
}
