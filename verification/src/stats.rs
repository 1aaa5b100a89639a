//! Statistics over all file records of an index.

use vstd::prelude::*;
use vstd::hash_set::StringHashSet;
use crate::model::{file_views, BackupIndex, BackupIndexView, SnapshotFile, SnapshotFileView, SnapshotView};

verus! {

/// Figures that describe what a workspace's index holds.
#[derive(Debug, Clone, Copy, PartialEq, Eq)]
pub struct WorkspaceStats {
    /// Number of snapshots.
    pub snapshots: usize,
    /// Number of file records over all snapshots.
    pub total_files: usize,
    /// Sum of the recorded sizes of all file records.
    pub total_size: u64,
    /// Number of distinct paths among all file records.
    pub unique_files: usize,
}

/// What a [`WorkspaceStats`] is, as plain mathematical values.
pub struct StatsView {
    pub snapshots: nat,
    pub total_files: nat,
    pub total_size: nat,
    pub unique_files: nat,
}

impl View for WorkspaceStats {
    type V = StatsView;

    open spec fn view(&self) -> StatsView {
        StatsView {
            snapshots: self.snapshots as nat,
            total_files: self.total_files as nat,
            total_size: self.total_size as nat,
            unique_files: self.unique_files as nat,
        }
    }
}

/// The file records of all of `snapshots`, snapshot by snapshot.
pub open spec fn all_files(snapshots: Seq<SnapshotView>) -> Seq<SnapshotFileView>
    decreases snapshots.len(),
{
    if snapshots.len() == 0 {
        Seq::empty()
    } else {
        all_files(snapshots.drop_last()) + snapshots.last().files
    }
}

/// The sum of the recorded sizes of `files`.
pub open spec fn total_size(files: Seq<SnapshotFileView>) -> nat
    decreases files.len(),
{
    if files.len() == 0 {
        0
    } else {
        total_size(files.drop_last()) + files.last().size
    }
}

/// The set of paths that occur in `files`.
pub open spec fn unique_paths(files: Seq<SnapshotFileView>) -> Set<Seq<char>> {
    files.map_values(|f: SnapshotFileView| f.path).to_set()
}

/// The statistics of an index.
pub open spec fn stats_of(index: BackupIndexView) -> StatsView {
    let files = all_files(index.snapshots);
    StatsView {
        snapshots: index.snapshots.len(),
        total_files: files.len(),
        total_size: total_size(files),
        unique_files: unique_paths(files).len(),
    }
}

/// The statistics can be held in the integers of a [`WorkspaceStats`].
pub open spec fn stats_fit(stats: StatsView) -> bool {
    stats.total_files <= usize::MAX && stats.total_size <= u64::MAX
}

/// The size of two runs of records is the sum of their sizes.
proof fn lemma_total_size_add(a: Seq<SnapshotFileView>, b: Seq<SnapshotFileView>)
    ensures
        total_size(a + b) == total_size(a) + total_size(b),
    decreases b.len(),
{
    if b.len() == 0 {
        assert(a + b =~= a);
    } else {
        assert((a + b).drop_last() =~= a + b.drop_last());
        lemma_total_size_add(a, b.drop_last());
    }
}

/// The records of the first `n` snapshots are among the records of all, and
/// weigh no more.
proof fn lemma_all_files_grow(snapshots: Seq<SnapshotView>, n: int)
    requires
        0 <= n <= snapshots.len(),
    ensures
        all_files(snapshots.take(n)).len() <= all_files(snapshots).len(),
        total_size(all_files(snapshots.take(n))) <= total_size(all_files(snapshots)),
    decreases snapshots.len(),
{
    if n == snapshots.len() {
        assert(snapshots.take(n) =~= snapshots);
    } else {
        assert(snapshots.drop_last().take(n) =~= snapshots.take(n));
        lemma_all_files_grow(snapshots.drop_last(), n);
        lemma_total_size_add(all_files(snapshots.drop_last()), snapshots.last().files);
    }
}

/// The number of distinct paths is at most the number of records.
pub proof fn lemma_unique_paths_bounded(files: Seq<SnapshotFileView>)
    ensures
        unique_paths(files).finite(),
        unique_paths(files).len() <= files.len(),
{
    let paths = files.map_values(|f: SnapshotFileView| f.path);
    paths.lemma_cardinality_of_set();
    vstd::seq_lib::seq_to_set_is_finite(paths);
}

/// Counts the records `files` on top of the records `done` counted so far.
/// Gives the new number of records and the new sum of sizes, or `None` where
/// one of them does not fit its integer type.
fn count_files(
    files: &Vec<SnapshotFile>,
    seen: &mut StringHashSet,
    count: usize,
    size: u64,
    Ghost(done): Ghost<Seq<SnapshotFileView>>,
) -> (counted: Option<(usize, u64)>)
    requires
        old(seen)@ == unique_paths(done),
        count == done.len(),
        size == total_size(done),
    ensures
        match counted {
            Some((new_count, new_size)) => {
                &&& final(seen)@ == unique_paths(done + file_views(files@))
                &&& new_count == (done + file_views(files@)).len()
                &&& new_size == total_size(done + file_views(files@))
            },
            None => (done + file_views(files@)).len() > usize::MAX || total_size(
                done + file_views(files@),
            ) > u64::MAX,
        },
{
    let ghost added = file_views(files@);
    let mut count = count;
    let mut size = size;
    let mut i: usize = 0;
    assert(done + added.take(0) =~= done);
    while i < files.len()
        invariant
            i <= files.len(),
            added == file_views(files@),
            seen@ == unique_paths(done + added.take(i as int)),
            count == (done + added.take(i as int)).len(),
            size == total_size(done + added.take(i as int)),
        decreases files.len() - i,
    {
        let ghost sofar = done + added.take(i as int);
        let ghost next = done + added.take(i + 1);
        proof {
            assert(added[i as int] == files@[i as int]@);
            assert(next =~= sofar.push(added[i as int]));
            assert(next.drop_last() =~= sofar);
            assert(next.map_values(|f: SnapshotFileView| f.path) =~= sofar.map_values(
                |f: SnapshotFileView| f.path,
            ).push(added[i as int].path));
            sofar.map_values(|f: SnapshotFileView| f.path).lemma_push_to_set_commute(
                added[i as int].path,
            );
            assert(added =~= added.take(i + 1) + added.skip(i + 1));
            assert(done + added =~= next + added.skip(i + 1));
            lemma_total_size_add(next, added.skip(i + 1));
        }
        if count == usize::MAX {
            return None;
        }
        let new_size = match size.checked_add(files[i].size) {
            Some(sum) => sum,
            None => {
                return None;
            },
        };
        seen.insert(files[i].path.clone());
        count += 1;
        size = new_size;
        i += 1;
    }
    assert(added.take(i as int) =~= added);
    Some((count, size))
}

/// The statistics of `index`, or `None` where the number of records or the
/// sum of their sizes does not fit its integer type.
pub fn get_workspace_stats(index: &BackupIndex) -> (stats: Option<WorkspaceStats>)
    ensures
        match stats {
            Some(figures) => figures@ == stats_of(index@),
            None => !stats_fit(stats_of(index@)),
        },
{
    let ghost views = index@.snapshots;
    let mut seen = StringHashSet::new();
    let mut total_files: usize = 0;
    let mut total_size: u64 = 0;
    let mut i: usize = 0;
    proof {
        assert(views.take(0) =~= Seq::<SnapshotView>::empty());
        assert(unique_paths(Seq::<SnapshotFileView>::empty()) =~= Set::<Seq<char>>::empty());
    }
    while i < index.snapshots.len()
        invariant
            i <= index.snapshots.len(),
            views == index@.snapshots,
            seen@ == unique_paths(all_files(views.take(i as int))),
            total_files == all_files(views.take(i as int)).len(),
            total_size == self::total_size(all_files(views.take(i as int))),
        decreases index.snapshots.len() - i,
    {
        proof {
            let next = views.take(i + 1);
            assert(next.drop_last() =~= views.take(i as int));
            assert(next.last().files == file_views(index.snapshots@[i as int].files@));
            lemma_all_files_grow(views, i + 1);
        }
        match count_files(
            &index.snapshots[i].files,
            &mut seen,
            total_files,
            total_size,
            Ghost(all_files(views.take(i as int))),
        ) {
            Some((new_count, new_size)) => {
                total_files = new_count;
                total_size = new_size;
            },
            None => {
                return None;
            },
        }
        i += 1;
    }
    proof {
        assert(views.take(i as int) =~= views);
        lemma_unique_paths_bounded(all_files(views));
    }
    Some(
        WorkspaceStats {
            snapshots: index.snapshots.len(),
            total_files,
            total_size,
            unique_files: seen.len(),
        },
    )
}

} // verus!
