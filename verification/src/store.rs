//! The snapshot store: what an index is when nothing usable was read, and how
//! a snapshot is found in it.

use vstd::prelude::*;
use vstd::string::*;
use crate::model::{BackupIndex, BackupIndexView, SnapshotView, CURRENT_VERSION};

verus! {

/// Why an operation on the store gave no result.
#[derive(Debug, PartialEq, Eq)]
pub enum StoreError {
    /// No snapshot has the id that was asked for.
    NotFound,
    /// The index could not be written; the text is the system's.
    Io(String),
}

impl StoreError {
    /// The text shown to the user for this error.
    pub open spec fn spec_message(self) -> Seq<char> {
        match self {
            StoreError::NotFound => "Snapshot not found"@,
            StoreError::Io(text) => text@,
        }
    }

    /// The text shown to the user for this error.
    pub fn message(&self) -> (text: String)
        ensures
            text@ == self.spec_message(),
    {
        match self {
            StoreError::NotFound => String::from_str("Snapshot not found"),
            StoreError::Io(text) => text.clone(),
        }
    }
}

/// The index of a workspace that has no snapshots yet.
pub open spec fn fresh_index() -> BackupIndexView {
    BackupIndexView { version: CURRENT_VERSION as int, snapshots: Seq::empty() }
}

/// The index a workspace has after reading its index file: the decoded one at
/// the current schema version, or a fresh one where nothing was decoded.
pub open spec fn loaded_index(decoded: Option<BackupIndexView>) -> BackupIndexView {
    match decoded {
        Some(index) => BackupIndexView {
            version: CURRENT_VERSION as int,
            snapshots: index.snapshots,
        },
        None => fresh_index(),
    }
}

/// View of an index that may be absent.
pub open spec fn decoded_view(decoded: Option<BackupIndex>) -> Option<BackupIndexView> {
    match decoded {
        Some(index) => Some(index@),
        None => None,
    }
}

impl BackupIndex {
    /// The index of a workspace that has no snapshots yet.
    pub fn fresh() -> (index: BackupIndex)
        ensures
            index@ == fresh_index(),
    {
        let index = BackupIndex { version: CURRENT_VERSION, snapshots: Vec::new() };
        assert(index@.snapshots =~= Seq::empty());
        index
    }
}

/// Decode-or-default: turns what was read of a workspace's index file into
/// the index to work with. `decoded` is `None` where the file is missing or
/// does not hold a well-formed index; the caller is never failed on that
/// account. An index that was decoded is taken over at the current schema
/// version, whatever version it carried.
pub fn load_workspace_index(decoded: Option<BackupIndex>) -> (index: BackupIndex)
    ensures
        index@ == loaded_index(decoded_view(decoded)),
{
    match decoded {
        Some(found) => BackupIndex { version: CURRENT_VERSION, snapshots: found.snapshots },
        None => BackupIndex::fresh(),
    }
}

/// The result of writing the index: `write_error` is the system's text where
/// the write did not complete.
pub fn save_workspace_index(write_error: Option<String>) -> (saved: Result<(), StoreError>)
    ensures
        write_error is None <==> saved is Ok,
        write_error matches Some(text) ==> saved == Err::<(), StoreError>(StoreError::Io(text)),
{
    match write_error {
        Some(text) => Err(StoreError::Io(text)),
        None => Ok(()),
    }
}

/// Some snapshot of `snapshots` has the id `id`.
pub open spec fn has_snapshot(snapshots: Seq<SnapshotView>, id: Seq<char>) -> bool {
    exists|i: int| 0 <= i < snapshots.len() && (#[trigger] snapshots[i]).id == id
}

/// `i` is the position of the first snapshot of `snapshots` that has the id `id`.
pub open spec fn is_first_with_id(snapshots: Seq<SnapshotView>, id: Seq<char>, i: int) -> bool {
    &&& 0 <= i < snapshots.len()
    &&& snapshots[i].id == id
    &&& forall|j: int| 0 <= j < i ==> (#[trigger] snapshots[j]).id != id
}

/// No two snapshots of `snapshots` share an id.
pub open spec fn has_unique_ids(snapshots: Seq<SnapshotView>) -> bool {
    forall|i: int, j: int|
        0 <= i < j < snapshots.len() ==> (#[trigger] snapshots[i]).id != (#[trigger] snapshots[j]).id
}

/// Position of the snapshot that a lookup by `id` finds, if there is one.
pub open spec fn snapshot_position(snapshots: Seq<SnapshotView>, id: Seq<char>) -> Option<int> {
    if has_snapshot(snapshots, id) {
        Some(choose|i: int| is_first_with_id(snapshots, id, i))
    } else {
        None
    }
}

/// A lookup finds the first snapshot with the id, and none where no snapshot has it.
pub proof fn lemma_snapshot_position(snapshots: Seq<SnapshotView>, id: Seq<char>)
    ensures
        match snapshot_position(snapshots, id) {
            Some(i) => is_first_with_id(snapshots, id, i),
            None => forall|j: int| 0 <= j < snapshots.len() ==> (#[trigger] snapshots[j]).id != id,
        },
        forall|i: int| is_first_with_id(snapshots, id, i) ==> snapshot_position(snapshots, id) == Some(i),
{
    if has_snapshot(snapshots, id) {
        let w = choose|i: int| 0 <= i < snapshots.len() && (#[trigger] snapshots[i]).id == id;
        lemma_first_exists(snapshots, id, w);
        let c = choose|i: int| is_first_with_id(snapshots, id, i);
        assert forall|i: int| is_first_with_id(snapshots, id, i) implies i == c by {
            if i < c {
                assert(snapshots[i].id == id);
            } else if c < i {
                assert(snapshots[c].id == id);
            }
        }
    }
}

proof fn lemma_first_exists(snapshots: Seq<SnapshotView>, id: Seq<char>, w: int)
    requires
        0 <= w < snapshots.len(),
        snapshots[w].id == id,
    ensures
        exists|i: int| is_first_with_id(snapshots, id, i),
    decreases w,
{
    if forall|j: int| 0 <= j < w ==> (#[trigger] snapshots[j]).id != id {
        assert(is_first_with_id(snapshots, id, w));
    } else {
        let j = choose|j: int| 0 <= j < w && (#[trigger] snapshots[j]).id == id;
        lemma_first_exists(snapshots, id, j);
    }
}

/// Position of the first snapshot of `index` whose id is `id`.
pub fn find_snapshot(index: &BackupIndex, id: &str) -> (found: Option<usize>)
    ensures
        match found {
            Some(i) => i < index.snapshots.len() && snapshot_position(index@.snapshots, id@)
                == Some(i as int),
            None => snapshot_position(index@.snapshots, id@) is None,
        },
{
    let wanted = String::from_str(id);
    let mut i: usize = 0;
    while i < index.snapshots.len()
        invariant
            i <= index.snapshots.len(),
            wanted@ == id@,
            forall|j: int| 0 <= j < i ==> (#[trigger] index@.snapshots[j]).id != id@,
        decreases index.snapshots.len() - i,
    {
        if index.snapshots[i].id == wanted {
            proof {
                assert(index@.snapshots[i as int].id == id@);
                assert(is_first_with_id(index@.snapshots, id@, i as int));
                lemma_snapshot_position(index@.snapshots, id@);
            }
            return Some(i);
        }
        i += 1;
    }
    proof {
        lemma_snapshot_position(index@.snapshots, id@);
    }
    None
}

} // verus!
