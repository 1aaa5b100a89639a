//! Where a workspace keeps its index, its blobs and its daemon's pid file.
//!
//! A location is held as the directory it starts from and the segments joined
//! onto it, in order; the platform's path rules are applied by whoever opens
//! the file.

use vstd::prelude::*;
use vstd::string::*;

verus! {

/// Directory, inside a workspace or a home directory, that holds all backup state.
pub const SHIELD_DIR: &'static str = ".shield";

/// File name of the list of known workspaces.
pub const CONFIG_FILE: &'static str = "config.json";

/// File name of a workspace's index.
pub const INDEX_FILE: &'static str = "index.json";

/// Directory name of a workspace's blob store.
pub const SNAPSHOTS_DIR: &'static str = "snapshots";

/// File name of the daemon's pid file.
pub const PID_FILE: &'static str = "shield.pid";

/// A location: a starting directory and the segments joined onto it.
#[derive(Debug, PartialEq, Eq)]
pub struct StorePath {
    /// The directory the location starts from.
    pub root: String,
    /// The segments joined onto `root`, first join first.
    pub segments: Vec<String>,
}

/// What a [`StorePath`] is, as plain mathematical values.
pub struct StorePathView {
    pub root: Seq<char>,
    pub segments: Seq<Seq<char>>,
}

/// The views of a sequence of strings, in the same order.
pub open spec fn text_views(texts: Seq<String>) -> Seq<Seq<char>> {
    texts.map_values(|t: String| t@)
}

impl View for StorePath {
    type V = StorePathView;

    open spec fn view(&self) -> StorePathView {
        StorePathView { root: self.root@, segments: text_views(self.segments@) }
    }
}

/// The views of a sequence of locations, in the same order.
pub open spec fn path_views(paths: Seq<StorePath>) -> Seq<StorePathView> {
    paths.map_values(|p: StorePath| p@)
}

/// `base` with `segment` joined onto it.
pub open spec fn joined(base: StorePathView, segment: Seq<char>) -> StorePathView {
    StorePathView { root: base.root, segments: base.segments.push(segment) }
}

/// The location `root` itself.
pub open spec fn at_root(root: Seq<char>) -> StorePathView {
    StorePathView { root, segments: Seq::empty() }
}

impl StorePath {
    /// The location `root` itself.
    pub fn new(root: &str) -> (path: StorePath)
        ensures
            path@ == at_root(root@),
    {
        let path = StorePath { root: String::from_str(root), segments: Vec::new() };
        assert(path@.segments =~= Seq::empty());
        path
    }

    /// This location with `segment` joined onto it.
    pub fn join(self, segment: &str) -> (path: StorePath)
        ensures
            path@ == joined(self@, segment@),
    {
        let mut path = self;
        path.segments.push(String::from_str(segment));
        assert(path@.segments =~= self@.segments.push(segment@));
        path
    }
}

/// Location of the index of the workspace at `workspace_path`.
pub open spec fn index_path(workspace_path: Seq<char>) -> StorePathView {
    joined(joined(at_root(workspace_path), SHIELD_DIR@), INDEX_FILE@)
}

/// Location of the blob directory of the workspace at `workspace_path`.
pub open spec fn snapshots_dir(workspace_path: Seq<char>) -> StorePathView {
    joined(joined(at_root(workspace_path), SHIELD_DIR@), SNAPSHOTS_DIR@)
}

/// Location of the pid file of the daemon that watches `workspace_path`.
pub open spec fn pid_file_path(workspace_path: Seq<char>) -> StorePathView {
    joined(joined(at_root(workspace_path), SHIELD_DIR@), PID_FILE@)
}

/// Location of the blob recorded as `backup_path` in the workspace at `workspace_path`.
pub open spec fn blob_path(workspace_path: Seq<char>, backup_path: Seq<char>) -> StorePathView {
    joined(snapshots_dir(workspace_path), backup_path)
}

/// Location of the live file recorded as `relative_path` in the workspace at `workspace_path`.
pub open spec fn target_path(workspace_path: Seq<char>, relative_path: Seq<char>) -> StorePathView {
    joined(at_root(workspace_path), relative_path)
}

/// Location of the list of known workspaces below the home directory `home`.
pub open spec fn global_config_path(home: Seq<char>) -> StorePathView {
    joined(joined(at_root(home), SHIELD_DIR@), CONFIG_FILE@)
}

/// Location of the index of the workspace at `workspace_path`.
pub fn get_workspace_index_path(workspace_path: &str) -> (path: StorePath)
    ensures
        path@ == index_path(workspace_path@),
{
    StorePath::new(workspace_path).join(SHIELD_DIR).join(INDEX_FILE)
}

/// Location of the blob directory of the workspace at `workspace_path`.
pub fn get_workspace_snapshots_dir(workspace_path: &str) -> (path: StorePath)
    ensures
        path@ == snapshots_dir(workspace_path@),
{
    StorePath::new(workspace_path).join(SHIELD_DIR).join(SNAPSHOTS_DIR)
}

/// Location of the pid file of the daemon that watches `workspace_path`.
pub fn get_pid_file_path(workspace_path: &str) -> (path: StorePath)
    ensures
        path@ == pid_file_path(workspace_path@),
{
    StorePath::new(workspace_path).join(SHIELD_DIR).join(PID_FILE)
}

/// Location of the blob recorded as `backup_path` in the workspace at `workspace_path`.
pub fn resolve_blob_path(workspace_path: &str, backup_path: &str) -> (path: StorePath)
    ensures
        path@ == blob_path(workspace_path@, backup_path@),
{
    get_workspace_snapshots_dir(workspace_path).join(backup_path)
}

/// Location of the live file recorded as `relative_path` in the workspace at `workspace_path`.
pub fn resolve_target_path(workspace_path: &str, relative_path: &str) -> (path: StorePath)
    ensures
        path@ == target_path(workspace_path@, relative_path@),
{
    StorePath::new(workspace_path).join(relative_path)
}

/// Location of the list of known workspaces below the home directory `home`.
pub fn get_global_config_path(home: &str) -> (path: StorePath)
    ensures
        path@ == global_config_path(home@),
{
    StorePath::new(home).join(SHIELD_DIR).join(CONFIG_FILE)
}

} // verus!
