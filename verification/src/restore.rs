//! The restore engine: which file-system actions undo a snapshot, and how
//! their outcomes add up to the reported counts.
//!
//! The engine never touches a file. It hands out the actions in the order in
//! which they are to be performed and counts what the caller reports back, so
//! one failed action never stops the rest.

use vstd::prelude::*;
use vstd::string::*;
use crate::model::{file_views, BackupIndex, SnapshotFile, SnapshotFileView, SnapshotView};
use crate::paths::{
    blob_path, resolve_blob_path, resolve_target_path, target_path, StorePath, StorePathView,
};
use crate::store::{
    find_snapshot, has_snapshot, has_unique_ids, is_first_with_id, lemma_snapshot_position,
    snapshot_position, StoreError,
};

verus! {

/// The kinds of change a file record can stand for.
#[derive(Debug, Clone, Copy, PartialEq, Eq)]
pub enum EventKind {
    /// The file was newly created.
    Create,
    /// The file's content was modified.
    Change,
    /// The file was removed.
    Delete,
    /// The file moved to another path.
    Rename,
    /// Any event type this engine does not know; such a record is skipped.
    Unknown,
}

/// The kind of change that the event type `event_type` names.
pub open spec fn event_kind(event_type: Seq<char>) -> EventKind {
    if event_type == "create"@ {
        EventKind::Create
    } else if event_type == "change"@ {
        EventKind::Change
    } else if event_type == "delete"@ {
        EventKind::Delete
    } else if event_type == "rename"@ {
        EventKind::Rename
    } else {
        EventKind::Unknown
    }
}

impl SnapshotFile {
    /// The kind of change this record stands for.
    pub fn kind(&self) -> (kind: EventKind)
        ensures
            kind == event_kind(self@.event_type),
    {
        if self.event_type == String::from_str("create") {
            EventKind::Create
        } else if self.event_type == String::from_str("change") {
            EventKind::Change
        } else if self.event_type == String::from_str("delete") {
            EventKind::Delete
        } else if self.event_type == String::from_str("rename") {
            EventKind::Rename
        } else {
            EventKind::Unknown
        }
    }
}

/// One thing to do to the file system while restoring.
#[derive(Debug, PartialEq, Eq)]
pub enum FsAction {
    /// Delete the file at `path` if one is there.
    Remove { path: StorePath },
    /// If `blob` exists, create the directories above `target` (those that
    /// exist already are no error) and copy `blob` to `target`, replacing
    /// what is there.
    CopyBack { blob: StorePath, target: StorePath },
}

/// What an [`FsAction`] is, as plain mathematical values.
pub enum FsActionView {
    Remove { path: StorePathView },
    CopyBack { blob: StorePathView, target: StorePathView },
}

impl View for FsAction {
    type V = FsActionView;

    open spec fn view(&self) -> FsActionView {
        match self {
            FsAction::Remove { path } => FsActionView::Remove { path: path@ },
            FsAction::CopyBack { blob, target } => FsActionView::CopyBack {
                blob: blob@,
                target: target@,
            },
        }
    }
}

/// The views of a sequence of actions, in the same order.
pub open spec fn action_views(actions: Seq<FsAction>) -> Seq<FsActionView> {
    actions.map_values(|a: FsAction| a@)
}

/// What the file system did with one [`FsAction`].
#[derive(Debug, Clone, Copy, PartialEq, Eq)]
pub enum FsOutcome {
    /// The action took effect: the file was deleted, or the blob was copied.
    Done,
    /// There was nothing to act on: no file to delete, or no blob to copy.
    Missing,
    /// The file system reported an error.
    Failed,
}

/// The actions that undo the one recorded change `file` in the workspace at `root`.
///
/// A creation is undone by deleting the live file. A deletion or a change is
/// undone by copying the blob back. A rename is undone by deleting the file
/// at its new path, where one is recorded, and then copying the blob back to
/// the old path. A record of unknown kind is undone by nothing.
pub open spec fn reverse_actions(root: Seq<char>, file: SnapshotFileView) -> Seq<FsActionView> {
    let copy_back = FsActionView::CopyBack {
        blob: blob_path(root, file.backup_path),
        target: target_path(root, file.path),
    };
    match event_kind(file.event_type) {
        EventKind::Create => seq![FsActionView::Remove { path: target_path(root, file.path) }],
        EventKind::Change => seq![copy_back],
        EventKind::Delete => seq![copy_back],
        EventKind::Rename => match file.renamed_to {
            Some(moved_to) => seq![
                FsActionView::Remove { path: target_path(root, moved_to) },
                copy_back,
            ],
            None => seq![copy_back],
        },
        EventKind::Unknown => Seq::empty(),
    }
}

/// The actions that undo all of `files`, record by record in their order.
pub open spec fn restore_script(root: Seq<char>, files: Seq<SnapshotFileView>) -> Seq<FsActionView>
    decreases files.len(),
{
    if files.len() == 0 {
        Seq::empty()
    } else {
        restore_script(root, files.drop_last()) + reverse_actions(root, files.last())
    }
}

/// What restoring the snapshot `id` of the index with snapshots `snapshots`
/// asks of the file system: the script of the first snapshot with that id,
/// or `None` where no snapshot has it.
pub open spec fn planned_restore(
    snapshots: Seq<SnapshotView>,
    root: Seq<char>,
    id: Seq<char>,
) -> Option<Seq<FsActionView>> {
    match snapshot_position(snapshots, id) {
        Some(i) => Some(restore_script(root, snapshots[i].files)),
        None => None,
    }
}

/// A restore of an id that no snapshot has is refused: no script is planned,
/// so nothing is asked of the file system and nothing changes.
pub proof fn lemma_unknown_id_plans_nothing(
    snapshots: Seq<SnapshotView>,
    root: Seq<char>,
    id: Seq<char>,
)
    requires
        has_unique_ids(snapshots),
        !has_snapshot(snapshots, id),
    ensures
        planned_restore(snapshots, root, id) is None,
{
}

/// Where no two snapshots share an id, a restore by id plans the script of
/// the one snapshot that has it.
pub proof fn lemma_known_id_plans_its_snapshot(
    snapshots: Seq<SnapshotView>,
    root: Seq<char>,
    id: Seq<char>,
    i: int,
)
    requires
        has_unique_ids(snapshots),
        0 <= i < snapshots.len(),
        snapshots[i].id == id,
    ensures
        planned_restore(snapshots, root, id) == Some(restore_script(root, snapshots[i].files)),
{
    lemma_snapshot_position(snapshots, id);
    assert(is_first_with_id(snapshots, id, i));
}

/// Appends to `plan` the actions that undo `file` in the workspace at `workspace_path`.
fn push_reverse_actions(plan: &mut Vec<FsAction>, workspace_path: &str, file: &SnapshotFile)
    ensures
        action_views(final(plan)@) == action_views(old(plan)@) + reverse_actions(
            workspace_path@,
            file@,
        ),
{
    let ghost before = action_views(plan@);
    match file.kind() {
        EventKind::Create => {
            let path = resolve_target_path(workspace_path, file.path.as_str());
            plan.push(FsAction::Remove { path });
        },
        EventKind::Change | EventKind::Delete => {
            let blob = resolve_blob_path(workspace_path, file.backup_path.as_str());
            let target = resolve_target_path(workspace_path, file.path.as_str());
            plan.push(FsAction::CopyBack { blob, target });
        },
        EventKind::Rename => {
            match &file.renamed_to {
                Some(moved_to) => {
                    let path = resolve_target_path(workspace_path, moved_to.as_str());
                    plan.push(FsAction::Remove { path });
                },
                None => {},
            }
            let blob = resolve_blob_path(workspace_path, file.backup_path.as_str());
            let target = resolve_target_path(workspace_path, file.path.as_str());
            plan.push(FsAction::CopyBack { blob, target });
        },
        EventKind::Unknown => {},
    }
    assert(action_views(plan@) =~= before + reverse_actions(workspace_path@, file@));
}

/// The actions that undo all of `files` in the workspace at `workspace_path`.
pub fn restore_actions(workspace_path: &str, files: &Vec<SnapshotFile>) -> (plan: Vec<FsAction>)
    ensures
        action_views(plan@) == restore_script(workspace_path@, file_views(files@)),
{
    let ghost views = file_views(files@);
    let mut plan: Vec<FsAction> = Vec::new();
    let mut i: usize = 0;
    assert(action_views(plan@) =~= restore_script(workspace_path@, views.take(0)));
    while i < files.len()
        invariant
            i <= files.len(),
            views == file_views(files@),
            action_views(plan@) == restore_script(workspace_path@, views.take(i as int)),
        decreases files.len() - i,
    {
        push_reverse_actions(&mut plan, workspace_path, &files[i]);
        proof {
            let next = views.take(i + 1);
            assert(next.drop_last() =~= views.take(i as int));
            assert(next.last() == files@[i as int]@);
        }
        i += 1;
    }
    assert(views.take(i as int) =~= views);
    plan
}

/// Plans the restore of the snapshot `snapshot_id` of `index` onto the
/// workspace at `workspace_path`.
///
/// Fails with [`StoreError::NotFound`] exactly when no snapshot of `index`
/// has that id; nothing is then asked of the file system. Otherwise gives the
/// actions that undo the first snapshot with that id, in the order in which
/// they are to be performed.
pub fn restore_plan(index: &BackupIndex, workspace_path: &str, snapshot_id: &str) -> (plan: Result<
    Vec<FsAction>,
    StoreError,
>)
    ensures
        match plan {
            Ok(actions) => planned_restore(index@.snapshots, workspace_path@, snapshot_id@)
                == Some(action_views(actions@)),
            Err(error) => error == StoreError::NotFound && planned_restore(
                index@.snapshots,
                workspace_path@,
                snapshot_id@,
            ) is None,
        },
{
    match find_snapshot(index, snapshot_id) {
        Some(i) => {
            assert(index@.snapshots[i as int] == index.snapshots@[i as int]@);
            Ok(restore_actions(workspace_path, &index.snapshots[i].files))
        },
        None => Err(StoreError::NotFound),
    }
}

/// How many files a restore brought back, could not bring back, and deleted.
#[derive(Debug, Clone, Copy, PartialEq, Eq)]
pub struct RestoreResult {
    /// Blobs copied back to their recorded path.
    pub restored: u32,
    /// Copies that were owed and did not happen: the blob was missing or the
    /// copy failed.
    pub failed: u32,
    /// Live files deleted to undo a creation or a rename.
    pub deleted: u32,
}

/// What a [`RestoreResult`] is, as plain mathematical values.
pub struct RestoreCounts {
    pub restored: nat,
    pub failed: nat,
    pub deleted: nat,
}

impl View for RestoreResult {
    type V = RestoreCounts;

    open spec fn view(&self) -> RestoreCounts {
        RestoreCounts {
            restored: self.restored as nat,
            failed: self.failed as nat,
            deleted: self.deleted as nat,
        }
    }
}

/// The counts before anything was done.
pub open spec fn no_counts() -> RestoreCounts {
    RestoreCounts { restored: 0, failed: 0, deleted: 0 }
}

/// The counts after `action` ended in `outcome`.
///
/// A deletion that took effect counts as deleted; one that found no file, or
/// failed, counts as nothing. A copy that took effect counts as restored; one
/// that found no blob, or failed, counts as failed.
pub open spec fn counted(counts: RestoreCounts, action: FsActionView, outcome: FsOutcome)
    -> RestoreCounts {
    match action {
        FsActionView::Remove { .. } => if outcome == FsOutcome::Done {
            RestoreCounts { deleted: counts.deleted + 1, ..counts }
        } else {
            counts
        },
        FsActionView::CopyBack { .. } => if outcome == FsOutcome::Done {
            RestoreCounts { restored: counts.restored + 1, ..counts }
        } else {
            RestoreCounts { failed: counts.failed + 1, ..counts }
        },
    }
}

/// The counts after the first `n` actions of `script` ended in the first `n`
/// of `outcomes`.
pub open spec fn tally_upto(script: Seq<FsActionView>, outcomes: Seq<FsOutcome>, n: nat)
    -> RestoreCounts
    decreases n,
{
    if n == 0 {
        no_counts()
    } else {
        counted(tally_upto(script, outcomes, (n - 1) as nat), script[n - 1], outcomes[n - 1])
    }
}

/// How many actions of `script` have an outcome in `outcomes`.
pub open spec fn reported(script: Seq<FsActionView>, outcomes: Seq<FsOutcome>) -> nat {
    if script.len() <= outcomes.len() {
        script.len()
    } else {
        outcomes.len()
    }
}

/// The counts of a restore: action `i` of `script` ended in `outcomes[i]`.
/// An action without an outcome counts as nothing, and so does an outcome
/// without an action.
pub open spec fn tally(script: Seq<FsActionView>, outcomes: Seq<FsOutcome>) -> RestoreCounts {
    tally_upto(script, outcomes, reported(script, outcomes))
}

/// Each count can be held in a `u32`.
pub open spec fn counts_fit(counts: RestoreCounts) -> bool {
    &&& counts.restored <= u32::MAX
    &&& counts.failed <= u32::MAX
    &&& counts.deleted <= u32::MAX
}

/// How many of the first `n` actions of `script` are copies.
pub open spec fn copies_upto(script: Seq<FsActionView>, n: nat) -> nat
    decreases n,
{
    if n == 0 {
        0
    } else if script[n - 1] is CopyBack {
        copies_upto(script, (n - 1) as nat) + 1
    } else {
        copies_upto(script, (n - 1) as nat)
    }
}

/// Every copy that was owed is counted once, as restored or as failed, and
/// no more files are counted as deleted than deletions were asked for.
pub proof fn lemma_tally_accounts_for_every_action(
    script: Seq<FsActionView>,
    outcomes: Seq<FsOutcome>,
    n: nat,
)
    ensures
        tally_upto(script, outcomes, n).restored + tally_upto(script, outcomes, n).failed
            == copies_upto(script, n),
        tally_upto(script, outcomes, n).deleted + copies_upto(script, n) <= n,
    decreases n,
{
    if n > 0 {
        lemma_tally_accounts_for_every_action(script, outcomes, (n - 1) as nat);
    }
}

/// Counts only grow as more outcomes come in.
pub proof fn lemma_tally_grows(script: Seq<FsActionView>, outcomes: Seq<FsOutcome>, n: nat, m: nat)
    requires
        n <= m,
    ensures
        tally_upto(script, outcomes, n).restored <= tally_upto(script, outcomes, m).restored,
        tally_upto(script, outcomes, n).failed <= tally_upto(script, outcomes, m).failed,
        tally_upto(script, outcomes, n).deleted <= tally_upto(script, outcomes, m).deleted,
    decreases m,
{
    if n < m {
        lemma_tally_grows(script, outcomes, n, (m - 1) as nat);
    }
}

/// Undoing `file` takes a copy of its blob: it records a change, a deletion
/// or a rename.
pub open spec fn owes_copy(file: SnapshotFileView) -> bool {
    match event_kind(file.event_type) {
        EventKind::Change => true,
        EventKind::Delete => true,
        EventKind::Rename => true,
        EventKind::Create => false,
        EventKind::Unknown => false,
    }
}

/// How many records of `files` take a copy to undo.
pub open spec fn copies_owed(files: Seq<SnapshotFileView>) -> nat
    decreases files.len(),
{
    if files.len() == 0 {
        0
    } else if owes_copy(files.last()) {
        copies_owed(files.drop_last()) + 1
    } else {
        copies_owed(files.drop_last())
    }
}

/// The copies among the actions of two scripts in a row are those of the
/// first and those of the second.
proof fn lemma_copies_add(a: Seq<FsActionView>, b: Seq<FsActionView>, k: nat)
    requires
        k <= b.len(),
    ensures
        copies_upto(a + b, a.len() + k) == copies_upto(a, a.len()) + copies_upto(b, k),
    decreases k,
{
    if k == 0 {
        lemma_copies_of_front(a, b, a.len());
    } else {
        lemma_copies_add(a, b, (k - 1) as nat);
        assert((a + b)[a.len() + k - 1] == b[k - 1]);
    }
}

proof fn lemma_copies_of_front(a: Seq<FsActionView>, b: Seq<FsActionView>, n: nat)
    requires
        n <= a.len(),
    ensures
        copies_upto(a + b, n) == copies_upto(a, n),
    decreases n,
{
    if n > 0 {
        lemma_copies_of_front(a, b, (n - 1) as nat);
        assert((a + b)[n - 1] == a[n - 1]);
    }
}

/// The script of a restore holds one copy for each record that owes one.
pub proof fn lemma_script_copies_what_is_owed(root: Seq<char>, files: Seq<SnapshotFileView>)
    ensures
        copies_upto(restore_script(root, files), restore_script(root, files).len()) == copies_owed(
            files,
        ),
    decreases files.len(),
{
    if files.len() > 0 {
        let front = restore_script(root, files.drop_last());
        let back = reverse_actions(root, files.last());
        lemma_script_copies_what_is_owed(root, files.drop_last());
        lemma_copies_add(front, back, back.len());
        reveal_with_fuel(copies_upto, 3);
    }
}

/// Once every action of a restore has its outcome, each record that records
/// a change, a deletion or a rename is counted once, as restored or as failed.
pub proof fn lemma_every_owed_copy_is_counted(
    root: Seq<char>,
    files: Seq<SnapshotFileView>,
    outcomes: Seq<FsOutcome>,
)
    requires
        outcomes.len() >= restore_script(root, files).len(),
    ensures
        tally(restore_script(root, files), outcomes).restored + tally(
            restore_script(root, files),
            outcomes,
        ).failed == copies_owed(files),
{
    let script = restore_script(root, files);
    lemma_tally_accounts_for_every_action(script, outcomes, script.len());
    lemma_script_copies_what_is_owed(root, files);
}

impl RestoreResult {
    /// The counts before anything was done.
    pub fn new() -> (result: RestoreResult)
        ensures
            result@ == no_counts(),
    {
        RestoreResult { restored: 0, failed: 0, deleted: 0 }
    }

    /// The counts after one more action, `action`, ended in `outcome`, or
    /// `None` where the count to raise is at the limit of a `u32` already.
    pub fn record(self, action: &FsAction, outcome: FsOutcome) -> (next: Option<RestoreResult>)
        ensures
            match next {
                Some(result) => result@ == counted(self@, action@, outcome),
                None => !counts_fit(counted(self@, action@, outcome)),
            },
    {
        let done = match outcome {
            FsOutcome::Done => true,
            FsOutcome::Missing => false,
            FsOutcome::Failed => false,
        };
        match action {
            FsAction::Remove { .. } => {
                if !done {
                    Some(self)
                } else if self.deleted < u32::MAX {
                    Some(
                        RestoreResult {
                            restored: self.restored,
                            failed: self.failed,
                            deleted: self.deleted + 1,
                        },
                    )
                } else {
                    None
                }
            },
            FsAction::CopyBack { .. } => {
                if done {
                    if self.restored < u32::MAX {
                        Some(
                            RestoreResult {
                                restored: self.restored + 1,
                                failed: self.failed,
                                deleted: self.deleted,
                            },
                        )
                    } else {
                        None
                    }
                } else if self.failed < u32::MAX {
                    Some(
                        RestoreResult {
                            restored: self.restored,
                            failed: self.failed + 1,
                            deleted: self.deleted,
                        },
                    )
                } else {
                    None
                }
            },
        }
    }
}

/// Adds up a restore: action `i` of `plan` ended in `outcomes[i]`. Gives
/// `None` where a count does not fit in a `u32`.
pub fn restore_tally(plan: &Vec<FsAction>, outcomes: &Vec<FsOutcome>) -> (result: Option<
    RestoreResult,
>)
    ensures
        match result {
            Some(counts) => counts@ == tally(action_views(plan@), outcomes@),
            None => !counts_fit(tally(action_views(plan@), outcomes@)),
        },
{
    let ghost script = action_views(plan@);
    let n = if plan.len() <= outcomes.len() {
        plan.len()
    } else {
        outcomes.len()
    };
    let mut counts = RestoreResult::new();
    let mut i: usize = 0;
    while i < n
        invariant
            i <= n,
            n == reported(script, outcomes@),
            script == action_views(plan@),
            counts@ == tally_upto(script, outcomes@, i as nat),
        decreases n - i,
    {
        match counts.record(&plan[i], outcomes[i]) {
            Some(next) => {
                counts = next;
            },
            None => {
                proof {
                    lemma_tally_grows(script, outcomes@, (i + 1) as nat, n as nat);
                }
                return None;
            },
        }
        i += 1;
    }
    Some(counts)
}

} // verus!
