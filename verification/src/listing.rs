//! Listing: the snapshots of an index, newest first.

use vstd::prelude::*;
use vstd::seq_lib::*;
use crate::model::{snapshot_views, BackupIndex, Snapshot, SnapshotView};

verus! {

/// No snapshot of `snapshots` comes before a newer one.
pub open spec fn is_newest_first(snapshots: Seq<SnapshotView>) -> bool {
    forall|i: int, j: int|
        0 <= i <= j < snapshots.len() ==> (#[trigger] snapshots[i]).timestamp >= (
        #[trigger] snapshots[j]).timestamp
}

/// The snapshots of `snapshots` that were taken at `timestamp`, in their order.
pub open spec fn taken_at(snapshots: Seq<SnapshotView>, timestamp: int) -> Seq<SnapshotView> {
    snapshots.filter(|s: SnapshotView| s.timestamp == timestamp)
}

/// `listed` is the listing of the stored snapshots `stored`: the same
/// snapshots, each as often as it is stored, newest first, and those taken
/// at the same time in the order in which they are stored.
pub open spec fn is_listing_of(listed: Seq<SnapshotView>, stored: Seq<SnapshotView>) -> bool {
    &&& is_newest_first(listed)
    &&& listed.to_multiset() == stored.to_multiset()
    &&& forall|timestamp: int| #[trigger] taken_at(listed, timestamp) == taken_at(stored, timestamp)
}

/// A sequence without a snapshot taken at `timestamp` has none to select.
proof fn lemma_none_taken_at(snapshots: Seq<SnapshotView>, timestamp: int)
    requires
        forall|i: int| 0 <= i < snapshots.len() ==> (#[trigger] snapshots[i]).timestamp != timestamp,
    ensures
        taken_at(snapshots, timestamp) == Seq::<SnapshotView>::empty(),
    decreases snapshots.len(),
{
    reveal(Seq::filter);
    if snapshots.len() > 0 {
        lemma_none_taken_at(snapshots.drop_last(), timestamp);
    } else {
        assert(taken_at(snapshots, timestamp) =~= Seq::<SnapshotView>::empty());
    }
}

/// What one more snapshot at the end adds to the selection by time.
proof fn lemma_taken_at_push(snapshots: Seq<SnapshotView>, snapshot: SnapshotView, timestamp: int)
    ensures
        taken_at(snapshots.push(snapshot), timestamp) == if snapshot.timestamp == timestamp {
            taken_at(snapshots, timestamp).push(snapshot)
        } else {
            taken_at(snapshots, timestamp)
        },
{
    reveal(Seq::filter);
    assert(snapshots.push(snapshot).drop_last() =~= snapshots);
}

/// What a snapshot adds to the selection by time when it is put in front of
/// older snapshots only.
proof fn lemma_taken_at_insert(
    snapshots: Seq<SnapshotView>,
    at: int,
    snapshot: SnapshotView,
    timestamp: int,
)
    requires
        0 <= at <= snapshots.len(),
        forall|k: int|
            at <= k < snapshots.len() ==> (#[trigger] snapshots[k]).timestamp < snapshot.timestamp,
    ensures
        taken_at(snapshots.insert(at, snapshot), timestamp) == if snapshot.timestamp == timestamp {
            taken_at(snapshots, timestamp).push(snapshot)
        } else {
            taken_at(snapshots, timestamp)
        },
{
    let pred = |s: SnapshotView| s.timestamp == timestamp;
    let head = snapshots.take(at);
    let tail = snapshots.skip(at);
    assert(snapshots =~= head + tail);
    assert(snapshots.insert(at, snapshot) =~= head.push(snapshot) + tail);
    Seq::filter_distributes_over_add(head, tail, pred);
    Seq::filter_distributes_over_add(head.push(snapshot), tail, pred);
    lemma_taken_at_push(head, snapshot, timestamp);
    if snapshot.timestamp == timestamp {
        lemma_none_taken_at(tail, timestamp);
        assert(taken_at(head, timestamp).push(snapshot) + Seq::<SnapshotView>::empty()
            =~= taken_at(head, timestamp).push(snapshot));
        assert(taken_at(head, timestamp) + Seq::<SnapshotView>::empty() =~= taken_at(
            head,
            timestamp,
        ));
    }
}

/// Puts `snapshot` into the listing `listed`: behind every snapshot that is
/// as new or newer, in front of every older one.
fn insert_by_age(listed: &mut Vec<Snapshot>, snapshot: Snapshot)
    requires
        is_newest_first(snapshot_views(old(listed)@)),
    ensures
        is_newest_first(snapshot_views(final(listed)@)),
        snapshot_views(final(listed)@).to_multiset() == snapshot_views(
            old(listed)@,
        ).to_multiset().insert(snapshot@),
        forall|timestamp: int| #[trigger]
            taken_at(snapshot_views(final(listed)@), timestamp) == if snapshot@.timestamp
                == timestamp {
                taken_at(snapshot_views(old(listed)@), timestamp).push(snapshot@)
            } else {
                taken_at(snapshot_views(old(listed)@), timestamp)
            },
{
    let ghost before = snapshot_views(listed@);
    let mut at: usize = 0;
    while at < listed.len() && listed[at].timestamp >= snapshot.timestamp
        invariant
            at <= listed.len(),
            before == snapshot_views(listed@),
            forall|k: int| 0 <= k < at ==> (#[trigger] before[k]).timestamp >= snapshot.timestamp,
        decreases listed.len() - at,
    {
        at += 1;
    }
    proof {
        assert forall|k: int| at <= k < before.len() implies (#[trigger] before[k]).timestamp
            < snapshot@.timestamp by {
            assert(before[at as int].timestamp < snapshot@.timestamp);
        }
    }
    listed.insert(at, snapshot);
    proof {
        let after = snapshot_views(listed@);
        assert(after =~= before.insert(at as int, snapshot@));
        to_multiset_insert(before, at as int, snapshot@);
        assert forall|timestamp: int| #[trigger]
            taken_at(after, timestamp) == if snapshot@.timestamp == timestamp {
                taken_at(before, timestamp).push(snapshot@)
            } else {
                taken_at(before, timestamp)
            } by {
            lemma_taken_at_insert(before, at as int, snapshot@, timestamp);
        }
        assert forall|i: int, j: int| 0 <= i <= j < after.len() implies (#[trigger] after[i]).timestamp
            >= (#[trigger] after[j]).timestamp by {
            if i < at && j > at {
                assert(after[i] == before[i]);
                assert(after[j] == before[j - 1]);
            } else if i < at && j < at {
                assert(after[i] == before[i]);
                assert(after[j] == before[j]);
            } else if i > at {
                assert(after[i] == before[i - 1]);
                assert(after[j] == before[j - 1]);
            } else if i < at {
                assert(after[i] == before[i]);
            } else if j > at {
                assert(after[j] == before[j - 1]);
            }
        }
    }
}

/// The snapshots of `index`, newest first. Snapshots taken at the same time
/// come in the order in which the index stores them.
pub fn get_workspace_snapshots(index: BackupIndex) -> (listed: Vec<Snapshot>)
    ensures
        is_listing_of(snapshot_views(listed@), index@.snapshots),
{
    let ghost stored = index@.snapshots;
    let mut listed: Vec<Snapshot> = Vec::new();
    proof {
        assert(stored.take(0) =~= Seq::<SnapshotView>::empty());
        assert(snapshot_views(listed@) =~= Seq::<SnapshotView>::empty());
    }
    for snapshot in it: index.snapshots
        invariant
            it.seq() == index.snapshots@,
            stored == snapshot_views(index.snapshots@),
            is_listing_of(snapshot_views(listed@), stored.take(it.index() as int)),
    {
        let ghost sofar = stored.take(it.index() as int);
        proof {
            assert(stored.take(it.index() + 1) =~= sofar.push(snapshot@));
            to_multiset_build(sofar, snapshot@);
            assert forall|timestamp: int| #[trigger]
                taken_at(sofar.push(snapshot@), timestamp) == if snapshot@.timestamp == timestamp {
                    taken_at(sofar, timestamp).push(snapshot@)
                } else {
                    taken_at(sofar, timestamp)
                } by {
                lemma_taken_at_push(sofar, snapshot@, timestamp);
            }
        }
        insert_by_age(&mut listed, snapshot);
    }
    assert(stored.take(stored.len() as int) =~= stored);
    listed
}

} // verus!
