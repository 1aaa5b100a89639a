//! The durable data of one workspace: file records, snapshots and the index
//! that holds them, each with the mathematical view its contracts speak of.

use vstd::prelude::*;

verus! {

/// Schema version written into every index this library produces.
pub const CURRENT_VERSION: i32 = 2;

/// One recorded change to one file.
#[derive(Debug, PartialEq, Eq)]
pub struct SnapshotFile {
    /// Workspace-relative path of the file when the snapshot was taken.
    pub path: String,
    /// Path of the stored content, relative to the workspace's blob directory.
    pub backup_path: String,
    /// Byte length of the stored content.
    pub size: u64,
    /// Kind of change as written in the index; values other than the four
    /// known ones are carried along untouched.
    pub event_type: String,
    /// Where the file moved to, for a rename.
    pub renamed_to: Option<String>,
}

/// What a [`SnapshotFile`] is, as plain mathematical values.
pub struct SnapshotFileView {
    pub path: Seq<char>,
    pub backup_path: Seq<char>,
    pub size: nat,
    pub event_type: Seq<char>,
    pub renamed_to: Option<Seq<char>>,
}

/// View of an optional string.
pub open spec fn text_view(text: Option<String>) -> Option<Seq<char>> {
    match text {
        Some(s) => Some(s@),
        None => None,
    }
}

impl View for SnapshotFile {
    type V = SnapshotFileView;

    open spec fn view(&self) -> SnapshotFileView {
        SnapshotFileView {
            path: self.path@,
            backup_path: self.backup_path@,
            size: self.size as nat,
            event_type: self.event_type@,
            renamed_to: text_view(self.renamed_to),
        }
    }
}

/// The views of a sequence of file records, in the same order.
pub open spec fn file_views(files: Seq<SnapshotFile>) -> Seq<SnapshotFileView> {
    files.map_values(|f: SnapshotFile| f@)
}

/// One batch of recorded changes.
#[derive(Debug, PartialEq, Eq)]
pub struct Snapshot {
    /// Key by which the snapshot is found again.
    pub id: String,
    /// Milliseconds since the epoch.
    pub timestamp: i64,
    /// The recorded changes, in the order in which they happened.
    pub files: Vec<SnapshotFile>,
    /// Free-text annotation.
    pub message: Option<String>,
}

/// What a [`Snapshot`] is, as plain mathematical values.
pub struct SnapshotView {
    pub id: Seq<char>,
    pub timestamp: int,
    pub files: Seq<SnapshotFileView>,
    pub message: Option<Seq<char>>,
}

impl View for Snapshot {
    type V = SnapshotView;

    open spec fn view(&self) -> SnapshotView {
        SnapshotView {
            id: self.id@,
            timestamp: self.timestamp as int,
            files: file_views(self.files@),
            message: text_view(self.message),
        }
    }
}

/// The views of a sequence of snapshots, in the same order.
pub open spec fn snapshot_views(snapshots: Seq<Snapshot>) -> Seq<SnapshotView> {
    snapshots.map_values(|s: Snapshot| s@)
}

/// Everything that is durably known about one workspace.
#[derive(Debug, PartialEq, Eq)]
pub struct BackupIndex {
    /// Schema version of the index.
    pub version: i32,
    /// The snapshots, oldest insertion first.
    pub snapshots: Vec<Snapshot>,
}

/// What a [`BackupIndex`] is, as plain mathematical values.
pub struct BackupIndexView {
    pub version: int,
    pub snapshots: Seq<SnapshotView>,
}

impl View for BackupIndex {
    type V = BackupIndexView;

    open spec fn view(&self) -> BackupIndexView {
        BackupIndexView {
            version: self.version as int,
            snapshots: snapshot_views(self.snapshots@),
        }
    }
}

/// Copies an optional string.
pub fn clone_text(text: &Option<String>) -> (copy: Option<String>)
    ensures
        text_view(copy) == text_view(*text),
{
    match text {
        Some(s) => Some(s.clone()),
        None => None,
    }
}

impl Clone for SnapshotFile {
    fn clone(&self) -> (copy: Self)
        ensures
            copy@ == self@,
    {
        SnapshotFile {
            path: self.path.clone(),
            backup_path: self.backup_path.clone(),
            size: self.size,
            event_type: self.event_type.clone(),
            renamed_to: clone_text(&self.renamed_to),
        }
    }
}

/// Copies a list of file records, keeping their order.
pub fn clone_files(files: &Vec<SnapshotFile>) -> (copy: Vec<SnapshotFile>)
    ensures
        file_views(copy@) == file_views(files@),
{
    let mut copy: Vec<SnapshotFile> = Vec::new();
    let mut i: usize = 0;
    while i < files.len()
        invariant
            i <= files.len(),
            copy.len() == i,
            forall|k: int| 0 <= k < i ==> copy@[k]@ == files@[k]@,
        decreases files.len() - i,
    {
        copy.push(files[i].clone());
        i += 1;
    }
    assert(file_views(copy@) =~= file_views(files@));
    copy
}

impl Clone for Snapshot {
    fn clone(&self) -> (copy: Self)
        ensures
            copy@ == self@,
    {
        Snapshot {
            id: self.id.clone(),
            timestamp: self.timestamp,
            files: clone_files(&self.files),
            message: clone_text(&self.message),
        }
    }
}

/// Copies a list of snapshots, keeping their order.
pub fn clone_snapshots(snapshots: &Vec<Snapshot>) -> (copy: Vec<Snapshot>)
    ensures
        snapshot_views(copy@) == snapshot_views(snapshots@),
{
    let mut copy: Vec<Snapshot> = Vec::new();
    let mut i: usize = 0;
    while i < snapshots.len()
        invariant
            i <= snapshots.len(),
            copy.len() == i,
            forall|k: int| 0 <= k < i ==> copy@[k]@ == snapshots@[k]@,
        decreases snapshots.len() - i,
    {
        copy.push(snapshots[i].clone());
        i += 1;
    }
    assert(snapshot_views(copy@) =~= snapshot_views(snapshots@));
    copy
}

impl Clone for BackupIndex {
    fn clone(&self) -> (copy: Self)
        ensures
            copy@ == self@,
    {
        BackupIndex { version: self.version, snapshots: clone_snapshots(&self.snapshots) }
    }
}

} // verus!
