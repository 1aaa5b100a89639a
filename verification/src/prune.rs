//! Retention: which snapshots are past their age, which blobs go with them,
//! and how many bytes were freed.

use vstd::prelude::*;
use crate::clock::now_millis;
use crate::model::{
    file_views, snapshot_views, BackupIndex, BackupIndexView, Snapshot, SnapshotFile,
    SnapshotFileView, SnapshotView,
};
use crate::store::has_unique_ids;
use crate::paths::{blob_path, path_views, resolve_blob_path, StorePath, StorePathView};

verus! {

/// Length of a day in milliseconds.
pub const MILLIS_PER_DAY: i64 = 86_400_000;

/// A snapshot taken at `timestamp` is strictly older than `max_age_days`
/// days at the time `now`.
pub open spec fn is_expired(timestamp: int, now: int, max_age_days: int) -> bool {
    timestamp < now - max_age_days * MILLIS_PER_DAY
}

/// The snapshots of `snapshots` that are past their age, in their order.
pub open spec fn expired_snapshots(snapshots: Seq<SnapshotView>, now: int, max_age_days: int) -> Seq<
    SnapshotView,
> {
    snapshots.filter(|s: SnapshotView| is_expired(s.timestamp, now, max_age_days))
}

/// The snapshots of `snapshots` that are not past their age, in their order.
pub open spec fn kept_snapshots(snapshots: Seq<SnapshotView>, now: int, max_age_days: int) -> Seq<
    SnapshotView,
> {
    snapshots.filter(|s: SnapshotView| !is_expired(s.timestamp, now, max_age_days))
}

/// Where the blobs of the records `files` lie in the workspace at `root`,
/// one for each record.
pub open spec fn blobs_of(root: Seq<char>, files: Seq<SnapshotFileView>) -> Seq<StorePathView> {
    files.map_values(|f: SnapshotFileView| blob_path(root, f.backup_path))
}

/// Where the blobs of all records of `snapshots` lie, snapshot by snapshot.
pub open spec fn all_blobs(root: Seq<char>, snapshots: Seq<SnapshotView>) -> Seq<StorePathView>
    decreases snapshots.len(),
{
    if snapshots.len() == 0 {
        Seq::empty()
    } else {
        all_blobs(root, snapshots.drop_last()) + blobs_of(root, snapshots.last().files)
    }
}

/// What pruning leaves of an index: the same index without the snapshots
/// that are past their age.
pub open spec fn pruned_index(index: BackupIndexView, now: int, max_age_days: int)
    -> BackupIndexView {
    BackupIndexView {
        version: index.version,
        snapshots: kept_snapshots(index.snapshots, now, max_age_days),
    }
}

/// What pruning takes away: how many snapshots, and which blobs.
#[derive(Debug, PartialEq, Eq)]
pub struct PrunePlan {
    /// Number of snapshots dropped from the index.
    pub removed: usize,
    /// The blobs of the dropped snapshots, in the order of the index. Each is
    /// to be deleted if it exists.
    pub blobs: Vec<StorePath>,
}

/// What a [`PrunePlan`] is, as plain mathematical values.
pub struct PrunePlanView {
    pub removed: nat,
    pub blobs: Seq<StorePathView>,
}

impl View for PrunePlan {
    type V = PrunePlanView;

    open spec fn view(&self) -> PrunePlanView {
        PrunePlanView { removed: self.removed as nat, blobs: path_views(self.blobs@) }
    }
}

/// What pruning the index `index` of the workspace at `root` takes away.
pub open spec fn prune_plan(index: BackupIndexView, root: Seq<char>, now: int, max_age_days: int)
    -> PrunePlanView {
    let expired = expired_snapshots(index.snapshots, now, max_age_days);
    PrunePlanView { removed: expired.len(), blobs: all_blobs(root, expired) }
}

/// Whether a snapshot taken at `timestamp` is strictly older than
/// `max_age_days` days at the time `now`.
pub fn is_expired_at(timestamp: i64, now: i64, max_age_days: i64) -> (expired: bool)
    ensures
        expired == is_expired(timestamp as int, now as int, max_age_days as int),
{
    let span: i128 = (max_age_days as i128) * 86_400_000;
    let cutoff: i128 = (now as i128) - span;
    (timestamp as i128) < cutoff
}

/// Appends to `blobs` the location of the blob of each record of `files`.
fn push_blobs(blobs: &mut Vec<StorePath>, workspace_path: &str, files: &Vec<SnapshotFile>)
    ensures
        path_views(final(blobs)@) == path_views(old(blobs)@) + blobs_of(
            workspace_path@,
            file_views(files@),
        ),
{
    let ghost before = path_views(blobs@);
    let ghost wanted = blobs_of(workspace_path@, file_views(files@));
    let mut i: usize = 0;
    assert(path_views(blobs@) =~= before + wanted.take(0));
    while i < files.len()
        invariant
            i <= files.len(),
            wanted == blobs_of(workspace_path@, file_views(files@)),
            path_views(blobs@) == before + wanted.take(i as int),
        decreases files.len() - i,
    {
        let ghost sofar = path_views(blobs@);
        let blob = resolve_blob_path(workspace_path, files[i].backup_path.as_str());
        assert(blob@ == wanted[i as int]);
        blobs.push(blob);
        assert(path_views(blobs@) =~= sofar.push(blob@));
        assert(wanted.take(i + 1) =~= wanted.take(i as int).push(wanted[i as int]));
        assert(path_views(blobs@) =~= before + wanted.take(i + 1));
        i += 1;
    }
    assert(wanted.take(i as int) =~= wanted);
}

/// One more snapshot at the end adds to each of the three sequences what its
/// age says.
proof fn lemma_prune_step(root: Seq<char>, snapshots: Seq<SnapshotView>, now: int, max_age_days: int)
    requires
        snapshots.len() > 0,
    ensures
        is_expired(snapshots.last().timestamp, now, max_age_days) ==> {
            &&& expired_snapshots(snapshots, now, max_age_days) == expired_snapshots(
                snapshots.drop_last(),
                now,
                max_age_days,
            ).push(snapshots.last())
            &&& kept_snapshots(snapshots, now, max_age_days) == kept_snapshots(
                snapshots.drop_last(),
                now,
                max_age_days,
            )
            &&& all_blobs(root, expired_snapshots(snapshots, now, max_age_days)) == all_blobs(
                root,
                expired_snapshots(snapshots.drop_last(), now, max_age_days),
            ) + blobs_of(root, snapshots.last().files)
        },
        !is_expired(snapshots.last().timestamp, now, max_age_days) ==> {
            &&& expired_snapshots(snapshots, now, max_age_days) == expired_snapshots(
                snapshots.drop_last(),
                now,
                max_age_days,
            )
            &&& kept_snapshots(snapshots, now, max_age_days) == kept_snapshots(
                snapshots.drop_last(),
                now,
                max_age_days,
            ).push(snapshots.last())
        },
{
    reveal(Seq::filter);
    let before = expired_snapshots(snapshots.drop_last(), now, max_age_days);
    if is_expired(snapshots.last().timestamp, now, max_age_days) {
        let after = before.push(snapshots.last());
        assert(after.drop_last() =~= before);
    }
}

/// Drops from `index` every snapshot that is strictly older than
/// `max_age_days` days at the time `now`, and says what went: the number of
/// snapshots and, for the workspace at `workspace_path`, their blobs. The
/// snapshots that stay keep their order and their content.
pub fn clean_old_snapshots_at(
    index: &mut BackupIndex,
    workspace_path: &str,
    now: i64,
    max_age_days: i64,
) -> (plan: PrunePlan)
    ensures
        final(index)@ == pruned_index(old(index)@, now as int, max_age_days as int),
        plan@ == prune_plan(old(index)@, workspace_path@, now as int, max_age_days as int),
{
    let ghost views = index@.snapshots;
    let ghost root = workspace_path@;
    let mut all: Vec<Snapshot> = Vec::new();
    core::mem::swap(&mut index.snapshots, &mut all);
    let mut blobs: Vec<StorePath> = Vec::new();
    let mut removed: usize = 0;
    proof {
        assert(all@.len() == all.len());
        reveal(Seq::filter);
        assert(views.take(0) =~= Seq::empty());
        assert(snapshot_views(index.snapshots@) =~= kept_snapshots(
            views.take(0),
            now as int,
            max_age_days as int,
        ));
        assert(path_views(blobs@) =~= all_blobs(
            root,
            expired_snapshots(views.take(0), now as int, max_age_days as int),
        ));
    }
    for snapshot in it: all
        invariant
            it.seq() == all@,
            views == snapshot_views(all@),
            root == workspace_path@,
            index.version == old(index).version,
            snapshot_views(index.snapshots@) == kept_snapshots(
                views.take(it.index() as int),
                now as int,
                max_age_days as int,
            ),
            removed == expired_snapshots(
                views.take(it.index() as int),
                now as int,
                max_age_days as int,
            ).len(),
            removed <= it.index() <= all@.len() <= usize::MAX,
            path_views(blobs@) == all_blobs(
                root,
                expired_snapshots(views.take(it.index() as int), now as int, max_age_days as int),
            ),
    {
        proof {
            let next = views.take(it.index() + 1);
            assert(next.drop_last() =~= views.take(it.index() as int));
            assert(next.last() == snapshot@);
            assert(it.index() < all@.len());
            lemma_prune_step(root, next, now as int, max_age_days as int);
        }
        let ghost kept_before = snapshot_views(index.snapshots@);
        if is_expired_at(snapshot.timestamp, now, max_age_days) {
            push_blobs(&mut blobs, workspace_path, &snapshot.files);
            removed += 1;
        } else {
            index.snapshots.push(snapshot);
            assert(snapshot_views(index.snapshots@) =~= kept_before.push(snapshot@));
        }
    }
    assert(views.take(all@.len() as int) =~= views);
    PrunePlan { removed, blobs }
}

/// Prunes `index` as [`clean_old_snapshots_at`] does, at the time the system
/// clock shows, and gives that time with the plan.
pub fn clean_old_snapshots(index: &mut BackupIndex, workspace_path: &str, max_age_days: i64) -> (pruned:
    (i64, PrunePlan))
    ensures
        final(index)@ == pruned_index(old(index)@, pruned.0 as int, max_age_days as int),
        pruned.1@ == prune_plan(old(index)@, workspace_path@, pruned.0 as int, max_age_days as int),
{
    let now = now_millis();
    let plan = clean_old_snapshots_at(index, workspace_path, now, max_age_days);
    (now, plan)
}

/// The bytes freed by the first `n` of `sizes`: each is the size of a blob
/// that was there when its deletion came up, or `None` for one that was not.
pub open spec fn freed_upto(sizes: Seq<Option<u64>>, n: nat) -> nat
    decreases n,
{
    if n == 0 {
        0
    } else {
        freed_upto(sizes, (n - 1) as nat) + match sizes[n - 1] {
            Some(bytes) => bytes as nat,
            None => 0,
        }
    }
}

/// The bytes freed by all of `sizes`.
pub open spec fn freed_total(sizes: Seq<Option<u64>>) -> nat {
    freed_upto(sizes, sizes.len())
}

/// The freed bytes only grow as more sizes come in.
pub proof fn lemma_freed_grows(sizes: Seq<Option<u64>>, n: nat, m: nat)
    requires
        n <= m,
    ensures
        freed_upto(sizes, n) <= freed_upto(sizes, m),
    decreases m,
{
    if n < m {
        lemma_freed_grows(sizes, n, (m - 1) as nat);
    }
}

/// Adds up the bytes that a prune freed. `sizes` holds, for each blob of the
/// plan, its size on disk where the blob existed and `None` where it did not.
/// Gives `None` where the sum does not fit in a `u64`.
pub fn freed_bytes(sizes: &Vec<Option<u64>>) -> (freed: Option<u64>)
    ensures
        match freed {
            Some(bytes) => bytes == freed_total(sizes@),
            None => freed_total(sizes@) > u64::MAX,
        },
{
    let mut freed: u64 = 0;
    let mut i: usize = 0;
    while i < sizes.len()
        invariant
            i <= sizes.len(),
            freed == freed_upto(sizes@, i as nat),
        decreases sizes.len() - i,
    {
        match sizes[i] {
            Some(bytes) => {
                match freed.checked_add(bytes) {
                    Some(sum) => {
                        freed = sum;
                    },
                    None => {
                        proof {
                            lemma_freed_grows(sizes@, (i + 1) as nat, sizes@.len());
                        }
                        return None;
                    },
                }
            },
            None => {},
        }
        i += 1;
    }
    Some(freed)
}

/// Every snapshot of an index that holds only expired ones goes, with all
/// its blobs.
proof fn lemma_all_expired(root: Seq<char>, snapshots: Seq<SnapshotView>, now: int, max_age_days: int)
    requires
        forall|i: int|
            0 <= i < snapshots.len() ==> is_expired(
                (#[trigger] snapshots[i]).timestamp,
                now,
                max_age_days,
            ),
    ensures
        expired_snapshots(snapshots, now, max_age_days) == snapshots,
        kept_snapshots(snapshots, now, max_age_days) == Seq::<SnapshotView>::empty(),
    decreases snapshots.len(),
{
    reveal(Seq::filter);
    if snapshots.len() > 0 {
        lemma_all_expired(root, snapshots.drop_last(), now, max_age_days);
        lemma_prune_step(root, snapshots, now, max_age_days);
        assert(snapshots.drop_last().push(snapshots.last()) =~= snapshots);
    } else {
        assert(expired_snapshots(snapshots, now, max_age_days) =~= snapshots);
    }
}

/// Pruning with a maximum age of zero days drains an index whose snapshots
/// were all taken before `now`: no snapshot stays, every snapshot is counted
/// as removed, and the blob of every record is to be deleted. Pruning what is
/// left, at any later time and with any maximum age, removes nothing, names
/// no blob, frees no byte and leaves the index as it is.
///
/// A snapshot taken at `now` or later is not older than zero days and stays;
/// of an index that holds one, this is not claimed.
pub proof fn lemma_zero_days_drains(
    index: BackupIndexView,
    root: Seq<char>,
    now: int,
    later: int,
    max_age_days: int,
)
    requires
        forall|i: int|
            0 <= i < index.snapshots.len() ==> (#[trigger] index.snapshots[i]).timestamp < now,
    ensures
        pruned_index(index, now, 0).snapshots == Seq::<SnapshotView>::empty(),
        prune_plan(index, root, now, 0).removed == index.snapshots.len(),
        prune_plan(index, root, now, 0).blobs == all_blobs(root, index.snapshots),
        prune_plan(pruned_index(index, now, 0), root, later, max_age_days).removed == 0,
        prune_plan(pruned_index(index, now, 0), root, later, max_age_days).blobs == Seq::<
            StorePathView,
        >::empty(),
        pruned_index(pruned_index(index, now, 0), later, max_age_days) == pruned_index(
            index,
            now,
            0,
        ),
        freed_total(Seq::<Option<u64>>::empty()) == 0,
{
    lemma_all_expired(root, index.snapshots, now, 0);
    lemma_all_expired(root, Seq::<SnapshotView>::empty(), later, max_age_days);
}

/// Pruning twice at the same time with the same maximum age is pruning once:
/// the second pass removes nothing and names no blob.
pub proof fn lemma_prune_is_idempotent(
    index: BackupIndexView,
    root: Seq<char>,
    now: int,
    max_age_days: int,
)
    ensures
        pruned_index(pruned_index(index, now, max_age_days), now, max_age_days) == pruned_index(
            index,
            now,
            max_age_days,
        ),
        prune_plan(pruned_index(index, now, max_age_days), root, now, max_age_days).removed == 0,
        prune_plan(pruned_index(index, now, max_age_days), root, now, max_age_days).blobs == Seq::<
            StorePathView,
        >::empty(),
{
    lemma_kept_are_not_expired(root, index.snapshots, now, max_age_days);
}

/// None of the snapshots that pruning keeps is expired.
proof fn lemma_kept_are_not_expired(
    root: Seq<char>,
    snapshots: Seq<SnapshotView>,
    now: int,
    max_age_days: int,
)
    ensures
        kept_snapshots(kept_snapshots(snapshots, now, max_age_days), now, max_age_days)
            == kept_snapshots(snapshots, now, max_age_days),
        expired_snapshots(kept_snapshots(snapshots, now, max_age_days), now, max_age_days) == Seq::<
            SnapshotView,
        >::empty(),
    decreases snapshots.len(),
{
    reveal(Seq::filter);
    let kept = kept_snapshots(snapshots, now, max_age_days);
    if snapshots.len() > 0 {
        lemma_kept_are_not_expired(root, snapshots.drop_last(), now, max_age_days);
        lemma_prune_step(root, snapshots, now, max_age_days);
        if !is_expired(snapshots.last().timestamp, now, max_age_days) {
            let before = kept_snapshots(snapshots.drop_last(), now, max_age_days);
            assert(kept == before.push(snapshots.last()));
            assert(kept.drop_last() =~= before);
            lemma_prune_step(root, kept, now, max_age_days);
        }
    } else {
        assert(kept =~= Seq::<SnapshotView>::empty());
    }
}

/// Pruning keeps an index sound: where no two snapshots shared an id before,
/// none do after.
pub proof fn lemma_prune_keeps_ids_unique(index: BackupIndexView, now: int, max_age_days: int)
    requires
        has_unique_ids(index.snapshots),
    ensures
        has_unique_ids(pruned_index(index, now, max_age_days).snapshots),
    decreases index.snapshots.len(),
{
    reveal(Seq::filter);
    let snapshots = index.snapshots;
    let kept = kept_snapshots(snapshots, now, max_age_days);
    if snapshots.len() > 0 {
        let shorter = BackupIndexView { version: index.version, snapshots: snapshots.drop_last() };
        let before = kept_snapshots(snapshots.drop_last(), now, max_age_days);
        assert forall|i: int, j: int| 0 <= i < j < snapshots.drop_last().len() implies (
        #[trigger] snapshots.drop_last()[i]).id != (#[trigger] snapshots.drop_last()[j]).id by {
            assert(snapshots[i].id != snapshots[j].id);
        }
        lemma_prune_keeps_ids_unique(shorter, now, max_age_days);
        if !is_expired(snapshots.last().timestamp, now, max_age_days) {
            assert(kept == before.push(snapshots.last()));
            assert forall|i: int, j: int| 0 <= i < j < kept.len() implies (#[trigger] kept[i]).id != (
            #[trigger] kept[j]).id by {
                if j < before.len() {
                    assert(kept[i] == before[i]);
                    assert(kept[j] == before[j]);
                } else {
                    assert(kept[i] == before[i]);
                    assert(before.contains(before[i]));
                    snapshots.drop_last().lemma_filter_contains_rev(
                        |s: SnapshotView| !is_expired(s.timestamp, now, max_age_days),
                        before[i],
                    );
                    let m = choose|m: int|
                        0 <= m < snapshots.drop_last().len() && snapshots.drop_last()[m]
                            == before[i];
                    assert(snapshots[m].id != snapshots[snapshots.len() - 1].id);
                }
            }
        }
    }
}

} // verus!
