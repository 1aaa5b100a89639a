//! The list of known workspaces.

use vstd::prelude::*;
use vstd::string::*;
use crate::clock::now_millis;
use crate::model::text_view;

verus! {

/// A directory under backup management.
#[derive(Debug, PartialEq, Eq)]
pub struct Workspace {
    /// The directory, as the user gave it.
    pub path: String,
    /// Name shown for the workspace.
    pub name: String,
    /// When the workspace was added, in milliseconds since the epoch.
    pub added_at: i64,
}

/// What a [`Workspace`] is, as plain mathematical values.
pub struct WorkspaceView {
    pub path: Seq<char>,
    pub name: Seq<char>,
    pub added_at: int,
}

impl View for Workspace {
    type V = WorkspaceView;

    open spec fn view(&self) -> WorkspaceView {
        WorkspaceView { path: self.path@, name: self.name@, added_at: self.added_at as int }
    }
}

impl Clone for Workspace {
    fn clone(&self) -> (copy: Self)
        ensures
            copy@ == self@,
    {
        Workspace { path: self.path.clone(), name: self.name.clone(), added_at: self.added_at }
    }
}

/// The views of a sequence of workspaces, in the same order.
pub open spec fn workspace_views(workspaces: Seq<Workspace>) -> Seq<WorkspaceView> {
    workspaces.map_values(|w: Workspace| w@)
}

/// The known workspaces, in the order in which they were added.
#[derive(Debug, PartialEq, Eq)]
pub struct GlobalConfig {
    pub workspaces: Vec<Workspace>,
}

/// What a [`GlobalConfig`] is, as plain mathematical values.
pub struct GlobalConfigView {
    pub workspaces: Seq<WorkspaceView>,
}

impl View for GlobalConfig {
    type V = GlobalConfigView;

    open spec fn view(&self) -> GlobalConfigView {
        GlobalConfigView { workspaces: workspace_views(self.workspaces@) }
    }
}

impl Default for GlobalConfig {
    fn default() -> (config: Self)
        ensures
            config@.workspaces == Seq::<WorkspaceView>::empty(),
    {
        let config = GlobalConfig { workspaces: Vec::new() };
        assert(config@.workspaces =~= Seq::<WorkspaceView>::empty());
        config
    }
}

/// Why a directory was not added to the known workspaces.
#[derive(Debug, Clone, Copy, PartialEq, Eq)]
pub enum RegistryError {
    /// Nothing exists at the path.
    DirectoryMissing,
    /// What exists at the path is no directory.
    NotADirectory,
    /// A workspace with this path is known already.
    AlreadyRegistered,
}

impl RegistryError {
    /// The text shown to the user for this error.
    pub open spec fn spec_message(self) -> Seq<char> {
        match self {
            RegistryError::DirectoryMissing => "Directory does not exist"@,
            RegistryError::NotADirectory => "Path is not a directory"@,
            RegistryError::AlreadyRegistered => "Workspace already exists"@,
        }
    }

    /// The text shown to the user for this error.
    pub fn message(&self) -> (text: String)
        ensures
            text@ == self.spec_message(),
    {
        match self {
            RegistryError::DirectoryMissing => String::from_str("Directory does not exist"),
            RegistryError::NotADirectory => String::from_str("Path is not a directory"),
            RegistryError::AlreadyRegistered => String::from_str("Workspace already exists"),
        }
    }
}

/// What the file system says of a path that is to become a workspace.
#[derive(Debug, PartialEq, Eq)]
pub struct PathProbe {
    /// Something exists at the path.
    pub exists: bool,
    /// What exists there is a directory.
    pub is_dir: bool,
    /// The last component of the path, where it has one that is text.
    pub file_name: Option<String>,
}

/// Some workspace of `workspaces` has the path `path`.
pub open spec fn is_registered(workspaces: Seq<WorkspaceView>, path: Seq<char>) -> bool {
    exists|i: int| 0 <= i < workspaces.len() && (#[trigger] workspaces[i]).path == path
}

/// Why the path `path` cannot be added to `workspaces`, if anything stands
/// against it. What is missing is named before what is no directory, and
/// that before what is known already.
pub open spec fn refusal(
    exists: bool,
    is_dir: bool,
    workspaces: Seq<WorkspaceView>,
    path: Seq<char>,
) -> Option<RegistryError> {
    if !exists {
        Some(RegistryError::DirectoryMissing)
    } else if !is_dir {
        Some(RegistryError::NotADirectory)
    } else if is_registered(workspaces, path) {
        Some(RegistryError::AlreadyRegistered)
    } else {
        None
    }
}

/// The name shown for a workspace whose path ends in `file_name`.
pub open spec fn workspace_name(file_name: Option<Seq<char>>) -> Seq<char> {
    match file_name {
        Some(name) => name,
        None => "Unknown"@,
    }
}

/// The known workspaces after reading their file: what was decoded, or none
/// where nothing was.
pub fn load_global_config(decoded: Option<GlobalConfig>) -> (config: GlobalConfig)
    ensures
        match decoded {
            Some(found) => config@ == found@,
            None => config@.workspaces == Seq::<WorkspaceView>::empty(),
        },
{
    match decoded {
        Some(found) => found,
        None => GlobalConfig::default(),
    }
}

/// The known workspaces of `config`, in the order in which they were added.
pub fn get_workspaces(config: GlobalConfig) -> (workspaces: Vec<Workspace>)
    ensures
        workspace_views(workspaces@) == config@.workspaces,
{
    config.workspaces
}

/// Whether some workspace of `config` has the path `path`.
pub fn has_workspace(config: &GlobalConfig, path: &String) -> (found: bool)
    ensures
        found == is_registered(config@.workspaces, path@),
{
    let mut i: usize = 0;
    while i < config.workspaces.len()
        invariant
            i <= config.workspaces.len(),
            forall|k: int| 0 <= k < i ==> (#[trigger] config@.workspaces[k]).path != path@,
        decreases config.workspaces.len() - i,
    {
        if config.workspaces[i].path == *path {
            assert(config@.workspaces[i as int].path == path@);
            return true;
        }
        i += 1;
    }
    false
}

/// Adds the directory `path` to the known workspaces, with `now` as the time
/// of adding.
///
/// The directory is refused where `probe` says that nothing exists there or
/// that it is no directory, and where a workspace with this path is known;
/// `config` is then left as it is. Otherwise the new workspace goes to the
/// end of the list and a copy of it is given.
pub fn add_workspace_at(config: &mut GlobalConfig, path: String, probe: &PathProbe, now: i64) -> (added:
    Result<Workspace, RegistryError>)
    ensures
        match added {
            Ok(workspace) => {
                &&& refusal(probe.exists, probe.is_dir, old(config)@.workspaces, path@) is None
                &&& workspace@ == (WorkspaceView {
                    path: path@,
                    name: workspace_name(text_view(probe.file_name)),
                    added_at: now as int,
                })
                &&& final(config)@.workspaces == old(config)@.workspaces.push(workspace@)
            },
            Err(error) => {
                &&& refusal(probe.exists, probe.is_dir, old(config)@.workspaces, path@) == Some(
                    error,
                )
                &&& final(config)@ == old(config)@
            },
        },
{
    if !probe.exists {
        return Err(RegistryError::DirectoryMissing);
    }
    if !probe.is_dir {
        return Err(RegistryError::NotADirectory);
    }
    let name = match &probe.file_name {
        Some(name) => name.clone(),
        None => String::from_str("Unknown"),
    };
    if has_workspace(config, &path) {
        return Err(RegistryError::AlreadyRegistered);
    }
    let workspace = Workspace { path, name, added_at: now };
    let copy = workspace.clone();
    let ghost before = config@.workspaces;
    config.workspaces.push(workspace);
    assert(config@.workspaces =~= before.push(copy@));
    Ok(copy)
}

/// Adds the directory `path` to the known workspaces as
/// [`add_workspace_at`] does, with the time the system clock shows.
pub fn add_workspace(config: &mut GlobalConfig, path: String, probe: &PathProbe) -> (added: Result<
    Workspace,
    RegistryError,
>)
    ensures
        match added {
            Ok(workspace) => {
                &&& refusal(probe.exists, probe.is_dir, old(config)@.workspaces, path@) is None
                &&& workspace@.path == path@
                &&& workspace@.name == workspace_name(text_view(probe.file_name))
                &&& final(config)@.workspaces == old(config)@.workspaces.push(workspace@)
            },
            Err(error) => {
                &&& refusal(probe.exists, probe.is_dir, old(config)@.workspaces, path@) == Some(
                    error,
                )
                &&& final(config)@ == old(config)@
            },
        },
{
    let now = now_millis();
    add_workspace_at(config, path, probe, now)
}

/// The workspaces of `workspaces` whose path is not `path`, in their order.
pub open spec fn without_path(workspaces: Seq<WorkspaceView>, path: Seq<char>) -> Seq<
    WorkspaceView,
> {
    workspaces.filter(|w: WorkspaceView| w.path != path)
}

/// Takes every workspace with the path `path` out of the known workspaces.
/// The others keep their order.
pub fn remove_workspace(config: &mut GlobalConfig, path: &str)
    ensures
        final(config)@.workspaces == without_path(old(config)@.workspaces, path@),
{
    let ghost views = config@.workspaces;
    let unwanted = String::from_str(path);
    let mut all: Vec<Workspace> = Vec::new();
    core::mem::swap(&mut config.workspaces, &mut all);
    proof {
        reveal(Seq::filter);
        assert(views.take(0) =~= Seq::<WorkspaceView>::empty());
        assert(workspace_views(config.workspaces@) =~= without_path(views.take(0), path@));
    }
    for workspace in it: all
        invariant
            it.seq() == all@,
            views == workspace_views(all@),
            unwanted@ == path@,
            workspace_views(config.workspaces@) == without_path(
                views.take(it.index() as int),
                path@,
            ),
    {
        let ghost kept = workspace_views(config.workspaces@);
        proof {
            reveal(Seq::filter);
            let next = views.take(it.index() + 1);
            assert(next.drop_last() =~= views.take(it.index() as int));
            assert(next.last() == workspace@);
        }
        if workspace.path != unwanted {
            config.workspaces.push(workspace);
            assert(workspace_views(config.workspaces@) =~= kept.push(workspace@));
        }
    }
    assert(views.take(all@.len() as int) =~= views);
}

/// After a path was taken out, no workspace has it, and a path that was not
/// known leaves the list as it was.
pub proof fn lemma_removed_path_is_gone(workspaces: Seq<WorkspaceView>, path: Seq<char>)
    ensures
        !is_registered(without_path(workspaces, path), path),
        !is_registered(workspaces, path) ==> without_path(workspaces, path) == workspaces,
    decreases workspaces.len(),
{
    reveal(Seq::filter);
    let rest = without_path(workspaces, path);
    if workspaces.len() > 0 {
        lemma_removed_path_is_gone(workspaces.drop_last(), path);
        let before = without_path(workspaces.drop_last(), path);
        assert forall|i: int| 0 <= i < rest.len() implies (#[trigger] rest[i]).path != path by {
            if i < before.len() {
                assert(rest[i] == before[i]);
            }
        }
        if !is_registered(workspaces, path) {
            assert forall|i: int| 0 <= i < workspaces.drop_last().len() implies (
            #[trigger] workspaces.drop_last()[i]).path != path by {
                assert(workspaces[i].path != path);
            }
            assert(workspaces.last() == workspaces[workspaces.len() - 1]);
            assert(workspaces.last().path != path);
            assert(workspaces.drop_last().push(workspaces.last()) =~= workspaces);
        }
    }
}

} // verus!
