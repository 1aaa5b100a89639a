//! The watching daemon as the user sees it: whether it runs, and what to
//! report after asking it to start, to stop or to restore.
//!
//! Nothing here starts a process or reads a file. Each function takes what
//! was found out and says what follows from it.

use vstd::prelude::*;
use vstd::string::*;
use crate::paths::{at_root, joined, path_views, text_views, StorePath, StorePathView};
use crate::text::{
    chars_of, decimal, decimal_text, parse_between, parsed_u32, trim, trim_bounds, trimmed,
};

verus! {

/// Whether the daemon of a workspace runs, and as which process.
#[derive(Debug, Clone, Copy, PartialEq, Eq)]
pub struct ShieldStatus {
    pub running: bool,
    pub pid: Option<u32>,
}

/// What the user is told after a command.
#[derive(Debug, PartialEq, Eq)]
pub struct CommandResult {
    pub success: bool,
    pub message: String,
}

/// What a [`CommandResult`] is, as plain mathematical values.
pub struct CommandResultView {
    pub success: bool,
    pub message: Seq<char>,
}

impl View for CommandResult {
    type V = CommandResultView;

    open spec fn view(&self) -> CommandResultView {
        CommandResultView { success: self.success, message: self.message@ }
    }
}

/// The process id that a pid file with the content `content` records: the
/// number that the content writes once the white space at its ends is gone.
pub open spec fn recorded(content: Option<Seq<char>>) -> Option<u32> {
    match content {
        Some(text) => parsed_u32(trimmed(text)),
        None => None,
    }
}

/// View of the content of a file that may be absent.
pub open spec fn content_view(content: Option<&str>) -> Option<Seq<char>> {
    match content {
        Some(text) => Some(text@),
        None => None,
    }
}

/// The process id that the pid file records. `content` is `None` where the
/// file is missing or cannot be read.
pub fn recorded_pid(content: Option<&str>) -> (pid: Option<u32>)
    ensures
        pid == recorded(content_view(content)),
{
    match content {
        Some(text) => {
            let chars = chars_of(text);
            let (from, to) = trim_bounds(&chars);
            parse_between(&chars, from, to)
        },
        None => None,
    }
}

/// The status of a daemon whose pid file records `pid`, where `alive` says
/// whether a process with that id runs.
pub open spec fn status_of(pid: Option<u32>, alive: bool) -> ShieldStatus {
    if pid is Some && alive {
        ShieldStatus { running: true, pid }
    } else {
        ShieldStatus { running: false, pid: None }
    }
}

/// The status of a daemon whose pid file records `pid`, where `alive` says
/// whether a process with that id runs.
pub fn check_shield_running(pid: Option<u32>, alive: bool) -> (status: ShieldStatus)
    ensures
        status == status_of(pid, alive),
{
    match pid {
        Some(id) => {
            if alive {
                ShieldStatus { running: true, pid: Some(id) }
            } else {
                ShieldStatus { running: false, pid: None }
            }
        },
        None => ShieldStatus { running: false, pid: None },
    }
}

/// Name of the daemon's binary.
pub const SHIELD_BINARY: &'static str = "shield";

/// Where the daemon's binary is looked for below the home directory `home`
/// and in the directories `search_dirs`, in the order of looking.
pub open spec fn candidate_paths(home: Option<Seq<char>>, search_dirs: Seq<Seq<char>>) -> Seq<
    StorePathView,
> {
    let in_dirs = search_dirs.map_values(|dir: Seq<char>| joined(at_root(dir), SHIELD_BINARY@));
    match home {
        Some(dir) => seq![
            joined(at_root(dir), ".npm-global/bin/shield"@),
            joined(at_root(dir), ".cargo/bin/shield"@),
        ] + in_dirs,
        None => in_dirs,
    }
}

/// Where the daemon's binary is looked for once the command search of the
/// system has not found it: below the home directory, where one is known,
/// and then in each directory of the search path. The first that exists is
/// the binary.
pub fn shield_binary_candidates(home: Option<&str>, search_dirs: &Vec<String>) -> (candidates: Vec<
    StorePath,
>)
    ensures
        path_views(candidates@) == candidate_paths(
            content_view(home),
            text_views(search_dirs@),
        ),
{
    let mut candidates: Vec<StorePath> = Vec::new();
    match home {
        Some(dir) => {
            candidates.push(StorePath::new(dir).join(".npm-global/bin/shield"));
            candidates.push(StorePath::new(dir).join(".cargo/bin/shield"));
        },
        None => {},
    }
    let ghost front = path_views(candidates@);
    let ghost dirs = text_views(search_dirs@);
    let ghost in_dirs = dirs.map_values(|dir: Seq<char>| joined(at_root(dir), SHIELD_BINARY@));
    let mut i: usize = 0;
    assert(path_views(candidates@) =~= front + in_dirs.take(0));
    while i < search_dirs.len()
        invariant
            i <= search_dirs.len(),
            dirs == text_views(search_dirs@),
            in_dirs == dirs.map_values(|dir: Seq<char>| joined(at_root(dir), SHIELD_BINARY@)),
            path_views(candidates@) == front + in_dirs.take(i as int),
        decreases search_dirs.len() - i,
    {
        let ghost sofar = path_views(candidates@);
        let candidate = StorePath::new(search_dirs[i].as_str()).join(SHIELD_BINARY);
        assert(candidate@ == in_dirs[i as int]);
        candidates.push(candidate);
        assert(path_views(candidates@) =~= sofar.push(in_dirs[i as int]));
        assert(in_dirs.take(i + 1) =~= in_dirs.take(i as int).push(in_dirs[i as int]));
        assert(path_views(candidates@) =~= front + in_dirs.take(i + 1));
        i += 1;
    }
    assert(in_dirs.take(i as int) =~= in_dirs);
    proof {
        if home is Some {
            assert(front =~= seq![
                joined(at_root(home->0@), ".npm-global/bin/shield"@),
                joined(at_root(home->0@), ".cargo/bin/shield"@),
            ]);
        } else {
            assert(front =~= Seq::<StorePathView>::empty());
            assert(front + in_dirs =~= in_dirs);
        }
    }
    candidates
}

/// `i` is the position of the first candidate that exists.
pub open spec fn is_first_existing(exists: Seq<bool>, i: int) -> bool {
    &&& 0 <= i < exists.len()
    &&& exists[i]
    &&& forall|j: int| 0 <= j < i ==> !exists[j]
}

/// Which candidate is the binary: the first that exists. `exists[i]` says
/// whether candidate `i` does.
pub fn find_shield_binary(exists: &Vec<bool>) -> (found: Option<usize>)
    ensures
        match found {
            Some(i) => is_first_existing(exists@, i as int),
            None => forall|j: int| 0 <= j < exists.len() ==> !exists@[j],
        },
{
    let mut i: usize = 0;
    while i < exists.len()
        invariant
            i <= exists.len(),
            forall|j: int| 0 <= j < i ==> !exists@[j],
        decreases exists.len() - i,
    {
        if exists[i] {
            return Some(i);
        }
        i += 1;
    }
    None
}

/// What running the daemon's binary gave.
#[derive(Debug, PartialEq, Eq)]
pub enum Launch {
    /// The binary could not be run; `error` is the system's text.
    Refused { error: String },
    /// The binary ran and ended.
    Exited { success: bool, stdout: String, stderr: String },
}

/// What to do next while carrying out a command.
#[derive(Debug, PartialEq, Eq)]
pub enum Next {
    /// The command is over; this is its result.
    Done(CommandResult),
    /// Go on with the next step.
    Proceed,
    /// Wait this many milliseconds, then go on with the next step.
    ProceedAfter(u64),
}

/// What a [`Next`] is, as plain mathematical values.
pub enum NextView {
    Done(CommandResultView),
    Proceed,
    ProceedAfter(u64),
}

impl View for Next {
    type V = NextView;

    open spec fn view(&self) -> NextView {
        match self {
            Next::Done(result) => NextView::Done(result@),
            Next::Proceed => NextView::Proceed,
            Next::ProceedAfter(millis) => NextView::ProceedAfter(*millis),
        }
    }
}

/// Time given to the daemon to come up, in milliseconds.
pub const START_SETTLE_MILLIS: u64 = 500;

/// Time given to the daemon to go down, in milliseconds.
pub const STOP_SETTLE_MILLIS: u64 = 300;

/// A result with the given success and text.
pub open spec fn told(success: bool, message: Seq<char>) -> CommandResultView {
    CommandResultView { success, message }
}

/// The process id to show for `status`: its own, or zero where it has none.
pub open spec fn shown_pid(status: ShieldStatus) -> nat {
    match status.pid {
        Some(pid) => pid as nat,
        None => 0,
    }
}

fn tell(success: bool, message: String) -> (result: CommandResult)
    ensures
        result@ == told(success, message@),
{
    CommandResult { success, message }
}

/// `text` followed by the process id to show for `status` and a closing bracket.
fn with_pid(text: &str, status: ShieldStatus) -> (message: String)
    ensures
        message@ == text@ + decimal_text(shown_pid(status)) + ")"@,
{
    let pid = match status.pid {
        Some(id) => id,
        None => 0,
    };
    String::from_str(text).concat(decimal(pid).as_str()).concat(")")
}

/// Starting, after looking for the binary: without one the command is over.
pub open spec fn started_on_binary(found: bool) -> NextView {
    if found {
        NextView::Proceed
    } else {
        NextView::Done(
            told(
                false,
                "Shield binary not found. Please install shield first: npm install -g agentshield"@,
            ),
        )
    }
}

/// Starting, after asking whether the daemon runs: where it does, the
/// command is over and has succeeded.
pub open spec fn started_on_status(status: ShieldStatus) -> NextView {
    if status.running {
        NextView::Done(
            told(
                true,
                "Shield is already running (PID: "@ + decimal_text(shown_pid(status)) + ")"@,
            ),
        )
    } else {
        NextView::Proceed
    }
}

/// Starting, after running the binary: where it ran and succeeded, the
/// daemon is given time and asked again; else the command has failed.
pub open spec fn started_on_launch(launch: Launch) -> NextView {
    match launch {
        Launch::Refused { error } => NextView::Done(
            told(false, "Failed to execute shield command: "@ + error@),
        ),
        Launch::Exited { success, stdout, stderr } => if success {
            NextView::ProceedAfter(START_SETTLE_MILLIS)
        } else {
            NextView::Done(told(false, "Failed to start shield: "@ + stdout@ + stderr@))
        },
    }
}

/// Starting, after asking again whether the daemon runs: the command has
/// succeeded either way, and where the daemon does not run the user is shown
/// what the binary printed.
pub open spec fn started_on_recheck(stdout: Seq<char>, status: ShieldStatus) -> CommandResultView {
    if status.running {
        told(true, "Shield started successfully (PID: "@ + decimal_text(shown_pid(status)) + ")"@)
    } else {
        told(true, "Shield start command completed. "@ + trimmed(stdout))
    }
}

/// Starting, first step: `found` says whether the binary was found.
pub fn start_on_binary(found: bool) -> (next: Next)
    ensures
        next@ == started_on_binary(found),
{
    if found {
        Next::Proceed
    } else {
        Next::Done(
            tell(
                false,
                String::from_str(
                    "Shield binary not found. Please install shield first: npm install -g agentshield",
                ),
            ),
        )
    }
}

/// Starting, second step: `status` is the daemon's status before the start.
pub fn start_on_status(status: ShieldStatus) -> (next: Next)
    ensures
        next@ == started_on_status(status),
{
    if status.running {
        Next::Done(tell(true, with_pid("Shield is already running (PID: ", status)))
    } else {
        Next::Proceed
    }
}

/// Starting, third step: `launch` is what running the binary gave.
pub fn start_on_launch(launch: &Launch) -> (next: Next)
    ensures
        next@ == started_on_launch(*launch),
{
    match launch {
        Launch::Refused { error } => Next::Done(
            tell(
                false,
                String::from_str("Failed to execute shield command: ").concat(error.as_str()),
            ),
        ),
        Launch::Exited { success, stdout, stderr } => {
            if *success {
                Next::ProceedAfter(START_SETTLE_MILLIS)
            } else {
                Next::Done(
                    tell(
                        false,
                        String::from_str("Failed to start shield: ").concat(
                            stdout.as_str(),
                        ).concat(stderr.as_str()),
                    ),
                )
            }
        },
    }
}

/// Starting, last step: `stdout` is what the binary printed and `status` the
/// daemon's status after the wait.
pub fn start_on_recheck(stdout: &str, status: ShieldStatus) -> (result: CommandResult)
    ensures
        result@ == started_on_recheck(stdout@, status),
{
    if status.running {
        tell(true, with_pid("Shield started successfully (PID: ", status))
    } else {
        tell(
            true,
            String::from_str("Shield start command completed. ").concat(trim(stdout).as_str()),
        )
    }
}

/// Stopping or restoring, after looking for the binary: without one the
/// command is over.
pub open spec fn needs_binary(found: bool) -> NextView {
    if found {
        NextView::Proceed
    } else {
        NextView::Done(told(false, "Shield binary not found"@))
    }
}

/// Stopping, after asking whether the daemon runs: where it does not, the
/// command is over and has succeeded.
pub open spec fn stopped_on_status(status: ShieldStatus) -> NextView {
    if status.running {
        NextView::Proceed
    } else {
        NextView::Done(told(true, "Shield is not running"@))
    }
}

/// Stopping, after running the binary: where it ran and succeeded, the
/// daemon is given time before the result is told; else the command has
/// failed.
pub open spec fn stopped_on_launch(launch: Launch) -> NextView {
    match launch {
        Launch::Refused { error } => NextView::Done(
            told(false, "Failed to execute shield command: "@ + error@),
        ),
        Launch::Exited { success, stdout, stderr } => if success {
            NextView::ProceedAfter(STOP_SETTLE_MILLIS)
        } else {
            NextView::Done(told(false, "Failed to stop shield: "@ + stdout@ + stderr@))
        },
    }
}

/// Stopping, after the wait: the command has succeeded.
pub open spec fn stopped_on_settled(stdout: Seq<char>) -> CommandResultView {
    told(true, "Shield stopped successfully. "@ + trimmed(stdout))
}

/// Stopping or restoring, first step: `found` says whether the binary was found.
pub fn require_binary(found: bool) -> (next: Next)
    ensures
        next@ == needs_binary(found),
{
    if found {
        Next::Proceed
    } else {
        Next::Done(tell(false, String::from_str("Shield binary not found")))
    }
}

/// Stopping, second step: `status` is the daemon's status before the stop.
pub fn stop_on_status(status: ShieldStatus) -> (next: Next)
    ensures
        next@ == stopped_on_status(status),
{
    if status.running {
        Next::Proceed
    } else {
        Next::Done(tell(true, String::from_str("Shield is not running")))
    }
}

/// Stopping, third step: `launch` is what running the binary gave.
pub fn stop_on_launch(launch: &Launch) -> (next: Next)
    ensures
        next@ == stopped_on_launch(*launch),
{
    match launch {
        Launch::Refused { error } => Next::Done(
            tell(
                false,
                String::from_str("Failed to execute shield command: ").concat(error.as_str()),
            ),
        ),
        Launch::Exited { success, stdout, stderr } => {
            if *success {
                Next::ProceedAfter(STOP_SETTLE_MILLIS)
            } else {
                Next::Done(
                    tell(
                        false,
                        String::from_str("Failed to stop shield: ").concat(
                            stdout.as_str(),
                        ).concat(stderr.as_str()),
                    ),
                )
            }
        },
    }
}

/// Stopping, last step: `stdout` is what the binary printed.
pub fn stop_on_settled(stdout: &str) -> (result: CommandResult)
    ensures
        result@ == stopped_on_settled(stdout@),
{
    tell(true, String::from_str("Shield stopped successfully. ").concat(trim(stdout).as_str()))
}

/// Restoring through the binary, after running it: the user is shown what
/// it printed, without the white space at the ends.
pub open spec fn restored_on_launch(launch: Launch) -> CommandResultView {
    match launch {
        Launch::Refused { error } => told(false, "Failed to execute restore command: "@ + error@),
        Launch::Exited { success, stdout, stderr } => if success {
            told(true, trimmed(stdout@))
        } else {
            told(false, trimmed(stdout@ + stderr@))
        },
    }
}

/// Restoring through the binary, last step: `launch` is what running the
/// binary gave.
pub fn restore_on_launch(launch: &Launch) -> (result: CommandResult)
    ensures
        result@ == restored_on_launch(*launch),
{
    match launch {
        Launch::Refused { error } => tell(
            false,
            String::from_str("Failed to execute restore command: ").concat(error.as_str()),
        ),
        Launch::Exited { success, stdout, stderr } => {
            if *success {
                tell(true, trim(stdout.as_str()))
            } else {
                let both = stdout.clone().concat(stderr.as_str());
                tell(false, trim(both.as_str()))
            }
        },
    }
}

/// A command given to the daemon's binary.
#[derive(Debug, PartialEq, Eq)]
pub enum ShieldCommand {
    /// Start watching the workspace.
    Start,
    /// Stop watching the workspace.
    Stop,
    /// Restore the snapshot with this id.
    Restore { snapshot_id: String },
}

/// The arguments with which the binary carries out `command` on the
/// workspace at `workspace_path`.
pub open spec fn arguments_of(command: ShieldCommand, workspace_path: Seq<char>) -> Seq<
    Seq<char>,
> {
    match command {
        ShieldCommand::Start => seq!["start"@, workspace_path],
        ShieldCommand::Stop => seq!["stop"@, workspace_path],
        ShieldCommand::Restore { snapshot_id } => seq![
            "restore"@,
            snapshot_id@,
            "--path"@,
            workspace_path,
        ],
    }
}

/// The arguments with which the binary carries out `command` on the
/// workspace at `workspace_path`. The binary runs in that directory.
pub fn launch_arguments(command: &ShieldCommand, workspace_path: &str) -> (arguments: Vec<String>)
    ensures
        text_views(arguments@) == arguments_of(*command, workspace_path@),
{
    let mut arguments: Vec<String> = Vec::new();
    match command {
        ShieldCommand::Start => {
            arguments.push(String::from_str("start"));
        },
        ShieldCommand::Stop => {
            arguments.push(String::from_str("stop"));
        },
        ShieldCommand::Restore { snapshot_id } => {
            arguments.push(String::from_str("restore"));
            arguments.push(snapshot_id.clone());
            arguments.push(String::from_str("--path"));
        },
    }
    arguments.push(String::from_str(workspace_path));
    assert(text_views(arguments@) =~= arguments_of(*command, workspace_path@));
    arguments
}

} // verus!
