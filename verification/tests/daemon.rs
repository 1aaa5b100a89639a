use shield_backup::daemon::{
    check_shield_running, find_shield_binary, launch_arguments, recorded_pid, require_binary,
    restore_on_launch, shield_binary_candidates, start_on_binary, start_on_launch,
    start_on_recheck, start_on_status, stop_on_launch, stop_on_settled, stop_on_status,
    CommandResult, Launch, Next, ShieldCommand, ShieldStatus,
};
use shield_backup::paths::StorePath;

fn told(success: bool, message: &str) -> CommandResult {
    CommandResult { success, message: message.to_string() }
}

fn exited(success: bool, stdout: &str, stderr: &str) -> Launch {
    Launch::Exited { success, stdout: stdout.to_string(), stderr: stderr.to_string() }
}

fn refused(error: &str) -> Launch {
    Launch::Refused { error: error.to_string() }
}

const RUNNING: ShieldStatus = ShieldStatus { running: true, pid: Some(4242) };
const STOPPED: ShieldStatus = ShieldStatus { running: false, pid: None };

#[test]
fn pid_file_content_is_trimmed_and_read() {
    assert_eq!(recorded_pid(Some("1234")), Some(1234));
    assert_eq!(recorded_pid(Some("  1234\n")), Some(1234));
    assert_eq!(recorded_pid(Some("+7\r\n")), Some(7));
    assert_eq!(recorded_pid(Some("0")), Some(0));
    assert_eq!(recorded_pid(Some("4294967295")), Some(u32::MAX));
}

#[test]
fn pid_file_content_that_is_no_pid_records_nothing() {
    assert_eq!(recorded_pid(None), None);
    assert_eq!(recorded_pid(Some("")), None);
    assert_eq!(recorded_pid(Some("   ")), None);
    assert_eq!(recorded_pid(Some("12 34")), None);
    assert_eq!(recorded_pid(Some("-5")), None);
    assert_eq!(recorded_pid(Some("pid")), None);
    assert_eq!(recorded_pid(Some("4294967296")), None);
}

#[test]
fn daemon_runs_only_with_a_recorded_pid_that_is_alive() {
    assert_eq!(check_shield_running(Some(10), true), ShieldStatus { running: true, pid: Some(10) });
    assert_eq!(check_shield_running(Some(10), false), STOPPED);
    assert_eq!(check_shield_running(None, true), STOPPED);
    assert_eq!(check_shield_running(None, false), STOPPED);
}

#[test]
fn binary_is_looked_for_below_home_and_then_on_the_search_path() {
    let dirs = vec!["/usr/bin".to_string(), "/opt/bin".to_string()];
    let candidates = shield_binary_candidates(Some("/home/me"), &dirs);
    let at = |root: &str, seg: &str| StorePath { root: root.to_string(), segments: vec![seg.to_string()] };
    assert_eq!(
        candidates,
        vec![
            at("/home/me", ".npm-global/bin/shield"),
            at("/home/me", ".cargo/bin/shield"),
            at("/usr/bin", "shield"),
            at("/opt/bin", "shield"),
        ]
    );
    assert_eq!(shield_binary_candidates(None, &dirs), vec![at("/usr/bin", "shield"), at("/opt/bin", "shield")]);
    assert!(shield_binary_candidates(None, &vec![]).is_empty());
}

#[test]
fn the_first_candidate_that_exists_is_the_binary() {
    assert_eq!(find_shield_binary(&vec![false, true, true]), Some(1));
    assert_eq!(find_shield_binary(&vec![true]), Some(0));
    assert_eq!(find_shield_binary(&vec![false, false]), None);
    assert_eq!(find_shield_binary(&vec![]), None);
}

#[test]
fn start_without_a_binary_fails() {
    assert_eq!(
        start_on_binary(false),
        Next::Done(told(
            false,
            "Shield binary not found. Please install shield first: npm install -g agentshield"
        ))
    );
    assert_eq!(start_on_binary(true), Next::Proceed);
}

#[test]
fn start_of_a_running_daemon_succeeds_at_once() {
    assert_eq!(
        start_on_status(RUNNING),
        Next::Done(told(true, "Shield is already running (PID: 4242)"))
    );
    assert_eq!(
        start_on_status(ShieldStatus { running: true, pid: None }),
        Next::Done(told(true, "Shield is already running (PID: 0)"))
    );
    assert_eq!(start_on_status(STOPPED), Next::Proceed);
}

#[test]
fn start_reports_what_running_the_binary_gave() {
    assert_eq!(
        start_on_launch(&refused("No such file")),
        Next::Done(told(false, "Failed to execute shield command: No such file"))
    );
    assert_eq!(
        start_on_launch(&exited(false, "out\n", "err\n")),
        Next::Done(told(false, "Failed to start shield: out\nerr\n"))
    );
    assert_eq!(start_on_launch(&exited(true, "ok", "")), Next::ProceedAfter(500));
}

#[test]
fn start_reports_the_pid_once_the_daemon_is_up() {
    assert_eq!(
        start_on_recheck(" started \n", RUNNING),
        told(true, "Shield started successfully (PID: 4242)")
    );
    assert_eq!(
        start_on_recheck(" started \n", STOPPED),
        told(true, "Shield start command completed. started")
    );
}

#[test]
fn stop_and_restore_without_a_binary_fail() {
    assert_eq!(require_binary(false), Next::Done(told(false, "Shield binary not found")));
    assert_eq!(require_binary(true), Next::Proceed);
}

#[test]
fn stop_of_a_stopped_daemon_succeeds_at_once() {
    assert_eq!(stop_on_status(STOPPED), Next::Done(told(true, "Shield is not running")));
    assert_eq!(stop_on_status(RUNNING), Next::Proceed);
}

#[test]
fn stop_reports_what_running_the_binary_gave() {
    assert_eq!(
        stop_on_launch(&refused("denied")),
        Next::Done(told(false, "Failed to execute shield command: denied"))
    );
    assert_eq!(
        stop_on_launch(&exited(false, "a", "b")),
        Next::Done(told(false, "Failed to stop shield: ab"))
    );
    assert_eq!(stop_on_launch(&exited(true, "bye\n", "")), Next::ProceedAfter(300));
    assert_eq!(stop_on_settled("bye\n"), told(true, "Shield stopped successfully. bye"));
}

#[test]
fn restore_through_the_binary_shows_what_it_printed() {
    assert_eq!(
        restore_on_launch(&refused("gone")),
        told(false, "Failed to execute restore command: gone")
    );
    assert_eq!(restore_on_launch(&exited(true, "  restored 3 files\n", "warn")), told(true, "restored 3 files"));
    assert_eq!(restore_on_launch(&exited(false, " out ", " err \n")), told(false, "out  err"));
}

#[test]
fn arguments_of_each_command() {
    assert_eq!(launch_arguments(&ShieldCommand::Start, "/w"), vec!["start", "/w"]);
    assert_eq!(launch_arguments(&ShieldCommand::Stop, "/w"), vec!["stop", "/w"]);
    assert_eq!(
        launch_arguments(&ShieldCommand::Restore { snapshot_id: "s-1".to_string() }, "/w"),
        vec!["restore", "s-1", "--path", "/w"]
    );
}
