use fass_backup::daemon::{
    state_of, DaemonCommand, DaemonError, DaemonManager, DaemonState, Liveness, Probe,
    RestartPlan, StartDecision, DAEMON_UMASK, RESTART_MILLIS, SETTLE_MILLIS,
};
use fass_backup::decimal::{decimal_text, parse_minutes, parse_pid, pid_text, trim};
use fass_backup::scheduler::BackupSettings;
use fass_backup::stop::{
    begin_stop, pending_action, stop_step, Signal, StopAction, StopEvent, StopState, GRACE_POLLS,
    POLL_MILLIS,
};

const ALIVE: Probe = Probe { pid: Some(4242), alive: true };
const STALE: Probe = Probe { pid: Some(4242), alive: false };
const ABSENT: Probe = Probe { pid: None, alive: false };

fn enabled(minutes: u32) -> BackupSettings {
    BackupSettings { auto_backup_enabled: true, interval_minutes: minutes }
}

/// Drives a stop to its end against a process that is gone after `gone_after`
/// probes (never, if `None`). Returns the outcome, the milliseconds waited,
/// the signals sent and whether the PID file was removed.
fn drive_stop(
    first: Probe,
    gone_after: Option<u32>,
) -> (Option<DaemonError>, u64, Vec<Signal>, bool) {
    let (mut state, mut action) = begin_stop();
    let mut probes = 0u32;
    let mut waited = 0u64;
    let mut signals = Vec::new();
    let mut removed = false;
    for _ in 0..200 {
        let event = match action {
            StopAction::Probe => {
                probes += 1;
                let probe = if probes == 1 {
                    first
                } else if gone_after.map(|n| probes > n).unwrap_or(false) {
                    ABSENT
                } else {
                    ALIVE
                };
                StopEvent::Probed { probe }
            }
            StopAction::Send { pid, signal } => {
                assert_eq!(pid, 4242);
                signals.push(signal);
                StopEvent::Sent
            }
            StopAction::Wait { millis } => {
                waited += millis;
                StopEvent::Waited
            }
            StopAction::RemovePidFile => {
                removed = true;
                StopEvent::Removed
            }
            StopAction::Finish { error } => return (error, waited, signals, removed),
        };
        let step = stop_step(state, event);
        state = step.0;
        action = step.1;
    }
    panic!("the stop did not finish");
}

#[test]
fn pid_file_content_is_read_as_decimal() {
    assert_eq!(parse_pid("12345"), Some(12345));
    assert_eq!(parse_pid(" 123\n"), Some(123));
    assert_eq!(parse_pid("\t+7 "), Some(7));
    assert_eq!(parse_pid("-5"), Some(-5));
    assert_eq!(parse_pid("0"), Some(0));
    assert_eq!(parse_pid("007"), Some(7));
    assert_eq!(parse_pid("\u{a0}42\u{2003}"), Some(42));
}

#[test]
fn pid_file_content_at_the_limits() {
    assert_eq!(parse_pid("2147483647"), Some(i32::MAX));
    assert_eq!(parse_pid("-2147483648"), Some(i32::MIN));
    assert_eq!(parse_pid("2147483648"), None);
    assert_eq!(parse_pid("-2147483649"), None);
    assert_eq!(parse_pid("99999999999999999999999999"), None);
}

#[test]
fn unparsable_pid_file_means_no_pid() {
    for content in ["", "   ", "abc", "12a", "1 2", "-", "+", "--1", "1.5", "0x10", "\u{661}"] {
        assert_eq!(parse_pid(content), None, "{:?}", content);
    }
}

#[test]
fn pid_text_and_parse_round_trip() {
    for pid in [0, 1, 9, 10, 4242, i32::MAX, -1, -10, i32::MIN] {
        assert_eq!(pid_text(pid), pid.to_string());
        assert_eq!(parse_pid(&pid_text(pid)), Some(pid));
    }
}

#[test]
fn decimal_text_is_exact() {
    assert_eq!(decimal_text(0), "0");
    assert_eq!(decimal_text(60), "60");
    assert_eq!(decimal_text(18446744073709551615), "18446744073709551615");
}

#[test]
fn trim_removes_surrounding_white_space_only() {
    assert_eq!(trim("  a b \n"), "a b");
    assert_eq!(trim("\u{3000}x"), "x");
    assert_eq!(trim("   "), "");
    assert_eq!(trim(""), "");
    assert_eq!(trim("x"), "x");
}

#[test]
fn minutes_are_read_without_trimming() {
    assert_eq!(parse_minutes("60"), Some(60));
    assert_eq!(parse_minutes("+5"), Some(5));
    assert_eq!(parse_minutes("0"), Some(0));
    assert_eq!(parse_minutes("4294967295"), Some(u32::MAX));
    assert_eq!(parse_minutes("4294967296"), None);
    assert_eq!(parse_minutes(" 60"), None);
    assert_eq!(parse_minutes("-1"), None);
    assert_eq!(parse_minutes(""), None);
    assert_eq!(parse_minutes("+"), None);
    assert_eq!(parse_minutes("ten"), None);
}

#[test]
fn manager_keeps_its_files_in_the_project_directory() {
    let manager = DaemonManager::new("/proj");
    assert_eq!(manager.pid_path(), "/proj/fass_backup_daemon.pid");
    assert_eq!(manager.log_path(), "/proj/fass_backup_daemon.log");
    assert_eq!(manager.err_path(), "/proj/fass_backup_daemon.err");
    assert_eq!(manager.work_dir(), "/proj");
    assert_eq!(DAEMON_UMASK, 0o027);
}

#[test]
fn probe_shows_the_state() {
    assert_eq!(state_of(&ABSENT), DaemonState::NotRunning);
    assert_eq!(state_of(&Probe { pid: None, alive: true }), DaemonState::NotRunning);
    assert_eq!(state_of(&ALIVE), DaemonState::Running { pid: 4242 });
    assert_eq!(state_of(&STALE), DaemonState::StaleRecord { pid: 4242 });
}

#[test]
fn stale_pid_file_is_not_running_and_is_removed() {
    let manager = DaemonManager::new("/proj");
    assert_eq!(manager.is_running(&STALE), Liveness { running: false, remove_pid_file: true });
    assert_eq!(manager.is_running(&ALIVE), Liveness { running: true, remove_pid_file: false });
    assert_eq!(manager.is_running(&ABSENT), Liveness { running: false, remove_pid_file: false });
}

#[test]
fn status_lines_are_exact() {
    let manager = DaemonManager::new("/proj");
    assert_eq!(manager.status(&ABSENT, None), "\u{2717} Daemon is not running");
    assert_eq!(
        manager.status(&STALE, Some(&enabled(5))),
        "\u{26a0} Stale PID file found (daemon not running)"
    );
    assert_eq!(
        manager.status(&ALIVE, Some(&enabled(15))),
        "\u{2713} Daemon is running (PID: 4242, Interval: 15 min)"
    );
    assert_eq!(
        manager.status(&ALIVE, Some(&BackupSettings::default())),
        "\u{26a0} Daemon is running (PID: 4242) but auto-backup is disabled"
    );
    assert_eq!(manager.status(&ALIVE, None), "\u{2713} Daemon is running (PID: 4242)");
}

#[test]
fn start_on_a_running_daemon_fails_and_touches_nothing() {
    let manager = DaemonManager::new("/proj");
    assert_eq!(
        manager.start(&ALIVE, &enabled(5), Some(3)),
        StartDecision { purge_pid_file: false, outcome: Err(DaemonError::AlreadyRunning) }
    );
}

#[test]
fn start_checks_its_preconditions_in_order() {
    let manager = DaemonManager::new("/proj");
    let off = BackupSettings::default();
    assert_eq!(
        manager.start(&STALE, &off, None),
        StartDecision { purge_pid_file: true, outcome: Err(DaemonError::AutoBackupDisabled) }
    );
    assert_eq!(
        manager.start(&ABSENT, &enabled(5), None),
        StartDecision { purge_pid_file: true, outcome: Err(DaemonError::LoadMetadata) }
    );
    assert_eq!(
        manager.start(&ABSENT, &enabled(5), Some(0)),
        StartDecision { purge_pid_file: true, outcome: Err(DaemonError::NothingToBackUp) }
    );
    assert_eq!(
        manager.start(&STALE, &enabled(5), Some(1)),
        StartDecision { purge_pid_file: true, outcome: Ok(()) }
    );
}

#[test]
fn kill_needs_a_pid() {
    let manager = DaemonManager::new("/proj");
    assert_eq!(manager.kill(Some(77)), Ok(77));
    assert_eq!(manager.kill(None), Err(DaemonError::NotRunning));
    assert_eq!(SETTLE_MILLIS, 500);
}

#[test]
fn restart_stops_only_a_running_daemon() {
    let manager = DaemonManager::new("/proj");
    assert_eq!(RESTART_MILLIS, 2000);
    assert_eq!(manager.restart(&ALIVE), RestartPlan { stop_first: true, settle_millis: 2000 });
    assert_eq!(manager.restart(&STALE), RestartPlan { stop_first: false, settle_millis: 0 });
    assert_eq!(manager.restart(&ABSENT), RestartPlan { stop_first: false, settle_millis: 0 });
}

#[test]
fn error_messages_are_exact() {
    assert_eq!(
        DaemonError::AlreadyRunning.message("ignored"),
        "Daemon is already running. Use 'restart' to restart it."
    );
    assert_eq!(DaemonError::NotRunning.message(""), "Daemon is not running");
    assert_eq!(
        DaemonError::AutoBackupDisabled.message(""),
        "Auto-backup is disabled in settings. Please enable it first."
    );
    assert_eq!(
        DaemonError::NothingToBackUp.message(""),
        "No files to backup. Please perform an initial backup first."
    );
    assert_eq!(DaemonError::PidUnreadable.message("x"), "Failed to read PID");
    assert_eq!(DaemonError::SendTerm.message("EPERM"), "Failed to send SIGTERM: EPERM");
    assert_eq!(DaemonError::SendKill.message("ESRCH"), "Failed to send SIGKILL: ESRCH");
    assert_eq!(DaemonError::KillIneffective.message("x"), "Failed to kill daemon process");
    assert_eq!(DaemonError::LoadMetadata.message("bad"), "Failed to load metadata: bad");
    assert_eq!(DaemonError::LogFile.message("denied"), "Failed to create log file: denied");
    assert_eq!(DaemonError::ErrFile.message("denied"), "Failed to create error file: denied");
    assert_eq!(DaemonError::Daemonize.message("fork"), "Failed to daemonize: fork");
}

#[test]
fn command_words_round_trip() {
    for command in [
        DaemonCommand::Start,
        DaemonCommand::Stop,
        DaemonCommand::Restart,
        DaemonCommand::Status,
    ] {
        assert_eq!(DaemonCommand::parse(command.as_str()), Some(command));
    }
    assert_eq!(DaemonCommand::Restart.as_str(), "restart");
    assert_eq!(DaemonCommand::parse("kill"), None);
    assert_eq!(DaemonCommand::parse("Start"), None);
}

#[test]
fn stop_on_a_daemon_that_does_not_run_fails() {
    for first in [ABSENT, STALE] {
        let (error, waited, signals, removed) = drive_stop(first, None);
        assert_eq!(error, Some(DaemonError::NotRunning));
        assert_eq!(waited, 0);
        assert!(signals.is_empty());
        assert!(removed);
    }
}

#[test]
fn stop_succeeds_once_the_process_is_gone() {
    let (error, waited, signals, removed) = drive_stop(ALIVE, Some(3));
    assert_eq!(error, None);
    assert_eq!(waited, 1500);
    assert_eq!(signals, vec![Signal::Terminate]);
    assert!(removed);
}

#[test]
fn stop_kills_after_the_grace_period() {
    assert_eq!(GRACE_POLLS, 20);
    assert_eq!(POLL_MILLIS, 500);
    let (error, waited, signals, removed) = drive_stop(ALIVE, Some(22));
    assert_eq!(error, None);
    assert_eq!(waited, 10_500);
    assert_eq!(signals, vec![Signal::Terminate, Signal::Kill]);
    assert!(removed);
}

#[test]
fn stop_succeeds_at_the_last_look_of_the_grace_period() {
    let (error, waited, signals, _) = drive_stop(ALIVE, Some(20));
    assert_eq!(error, None);
    assert_eq!(waited, 10_000);
    assert_eq!(signals, vec![Signal::Terminate]);
}

#[test]
fn stop_fails_when_even_the_kill_does_not_help() {
    let (error, waited, signals, removed) = drive_stop(ALIVE, None);
    assert_eq!(error, Some(DaemonError::KillIneffective));
    assert_eq!(waited, 10_500);
    assert!(waited <= 11_000);
    assert_eq!(signals, vec![Signal::Terminate, Signal::Kill]);
    assert!(!removed);
}

#[test]
fn stop_reports_a_signal_that_could_not_be_sent() {
    let (state, _) = stop_step(StopState::Start, StopEvent::Probed { probe: ALIVE });
    assert_eq!(state, StopState::Terminating { pid: 4242 });
    assert_eq!(
        stop_step(state, StopEvent::SendFailed),
        (
            StopState::Done { error: Some(DaemonError::SendTerm) },
            StopAction::Finish { error: Some(DaemonError::SendTerm) }
        )
    );
    assert_eq!(
        stop_step(StopState::Killing { pid: 1 }, StopEvent::SendFailed),
        (
            StopState::Done { error: Some(DaemonError::SendKill) },
            StopAction::Finish { error: Some(DaemonError::SendKill) }
        )
    );
}

#[test]
fn manager_steps_the_stop() {
    let manager = DaemonManager::new("/proj");
    let (state, action) = begin_stop();
    assert_eq!((state, action), (StopState::Start, StopAction::Probe));
    assert_eq!(
        manager.stop(state, StopEvent::Probed { probe: ALIVE }),
        (
            StopState::Terminating { pid: 4242 },
            StopAction::Send { pid: 4242, signal: Signal::Terminate }
        )
    );
    assert_eq!(
        manager.stop(StopState::Terminating { pid: 4242 }, StopEvent::Sent),
        (StopState::Waiting { pid: 4242, polls: 0 }, StopAction::Wait { millis: 500 })
    );
}

#[test]
fn stop_ignores_an_event_it_does_not_await() {
    let state = StopState::Waiting { pid: 1, polls: 4 };
    assert_eq!(stop_step(state, StopEvent::Sent), (state, StopAction::Wait { millis: 500 }));
    assert_eq!(
        stop_step(state, StopEvent::Probed { probe: ABSENT }),
        (state, StopAction::Wait { millis: 500 })
    );
    let done = StopState::Done { error: None };
    assert_eq!(stop_step(done, StopEvent::Removed), (done, StopAction::Finish { error: None }));
    assert_eq!(pending_action(StopState::Start), StopAction::Probe);
    assert_eq!(
        pending_action(StopState::Killing { pid: 9 }),
        StopAction::Send { pid: 9, signal: Signal::Kill }
    );
}
