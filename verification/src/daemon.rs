//! The daemon's lifecycle, as decisions: the caller reads the PID file,
//! asks the system whether the process lives, and does what the manager
//! says.

use crate::decimal::{decimal_digits, decimal_text, pid_digits, pid_text};
use crate::paths::{join, path_join};
use crate::scheduler::BackupSettings;
use crate::stop::{stop_step, stop_step_spec, StopAction, StopEvent, StopState};
use vstd::prelude::*;
use vstd::string::*;

verus! {

/// The file-creation mask of the detached process.
pub const DAEMON_UMASK: u16 = 0o027;

/// How long to wait after a kill signal before the PID file is removed, in
/// milliseconds.
pub const SETTLE_MILLIS: u64 = 500;

/// How long to wait between stopping and starting on a restart, in
/// milliseconds.
pub const RESTART_MILLIS: u64 = 2000;

/// What was found out about the daemon: the process ID in the PID file, if
/// the file is there and holds one, and whether a process with that ID
/// exists.
#[derive(Debug, Clone, Copy, PartialEq, Eq, Structural)]
pub struct Probe {
    pub pid: Option<i32>,
    pub alive: bool,
}

/// The state of the daemon as seen from outside.
#[derive(Debug, Clone, Copy, PartialEq, Eq, Structural)]
pub enum DaemonState {
    NotRunning,
    Running { pid: i32 },
    StaleRecord { pid: i32 },
}

/// The answer to the question whether the daemon runs, and whether the PID
/// file is to be removed because the process it names is gone.
#[derive(Debug, Clone, Copy, PartialEq, Eq, Structural)]
pub struct Liveness {
    pub running: bool,
    pub remove_pid_file: bool,
}

/// Why a lifecycle operation failed.
#[derive(Debug, Clone, Copy, PartialEq, Eq, Structural)]
pub enum DaemonError {
    AlreadyRunning,
    NotRunning,
    AutoBackupDisabled,
    NothingToBackUp,
    PidUnreadable,
    SendTerm,
    SendKill,
    KillIneffective,
    LoadMetadata,
    LogFile,
    ErrFile,
    Daemonize,
}

/// What `start` decided: whether a PID file left behind is removed first,
/// and whether the daemon may be started.
#[derive(Debug, Clone, Copy, PartialEq, Eq)]
pub struct StartDecision {
    pub purge_pid_file: bool,
    pub outcome: Result<(), DaemonError>,
}

/// What a restart consists of: whether the running daemon is stopped first,
/// and how long to wait after that before starting, in milliseconds.
#[derive(Debug, Clone, Copy, PartialEq, Eq, Structural)]
pub struct RestartPlan {
    pub stop_first: bool,
    pub settle_millis: u64,
}

/// The daemon runs if the PID file names a process and that process exists.
pub open spec fn running_spec(probe: Probe) -> bool {
    probe.pid is Some && probe.alive
}

/// The state that a probe shows.
pub open spec fn state_spec(probe: Probe) -> DaemonState {
    match probe.pid {
        None => DaemonState::NotRunning,
        Some(pid) => if probe.alive {
            DaemonState::Running { pid }
        } else {
            DaemonState::StaleRecord { pid }
        },
    }
}

/// Whether an error's message ends with a detail from the system.
pub open spec fn has_detail(error: DaemonError) -> bool {
    error == DaemonError::SendTerm || error == DaemonError::SendKill || error
        == DaemonError::LoadMetadata || error == DaemonError::LogFile || error
        == DaemonError::ErrFile || error == DaemonError::Daemonize
}

/// The fixed part of an error's message.
pub open spec fn reason_spec(error: DaemonError) -> Seq<char> {
    match error {
        DaemonError::AlreadyRunning => "Daemon is already running. Use 'restart' to restart it."@,
        DaemonError::NotRunning => "Daemon is not running"@,
        DaemonError::AutoBackupDisabled => "Auto-backup is disabled in settings. Please enable it first."@,
        DaemonError::NothingToBackUp => "No files to backup. Please perform an initial backup first."@,
        DaemonError::PidUnreadable => "Failed to read PID"@,
        DaemonError::SendTerm => "Failed to send SIGTERM: "@,
        DaemonError::SendKill => "Failed to send SIGKILL: "@,
        DaemonError::KillIneffective => "Failed to kill daemon process"@,
        DaemonError::LoadMetadata => "Failed to load metadata: "@,
        DaemonError::LogFile => "Failed to create log file: "@,
        DaemonError::ErrFile => "Failed to create error file: "@,
        DaemonError::Daemonize => "Failed to daemonize: "@,
    }
}

/// An error's message: its fixed part, followed by the detail where the
/// error has one.
pub open spec fn message_spec(error: DaemonError, detail: Seq<char>) -> Seq<char> {
    if has_detail(error) {
        reason_spec(error) + detail
    } else {
        reason_spec(error)
    }
}

/// The status line for a probe and the settings, where they could be
/// loaded.
pub open spec fn status_spec(probe: Probe, settings: Option<BackupSettings>) -> Seq<char> {
    match state_spec(probe) {
        DaemonState::NotRunning => "\u{2717} Daemon is not running"@,
        DaemonState::StaleRecord { pid } => "\u{26a0} Stale PID file found (daemon not running)"@,
        DaemonState::Running { pid } => match settings {
            None => "\u{2713} Daemon is running (PID: "@ + pid_digits(pid as int) + ")"@,
            Some(s) => if s.auto_backup_enabled {
                "\u{2713} Daemon is running (PID: "@ + pid_digits(pid as int) + ", Interval: "@
                    + decimal_digits(s.interval_minutes as nat) + " min)"@
            } else {
                "\u{26a0} Daemon is running (PID: "@ + pid_digits(pid as int)
                    + ") but auto-backup is disabled"@
            },
        },
    }
}

/// What `start` decides. A running daemon is left alone and the start is
/// refused. Otherwise a PID file left behind is removed, and the start is
/// refused if auto-backup is off, if the index could not be loaded (`file_count`
/// is `None`), or if the index tracks no file.
pub open spec fn start_spec(probe: Probe, settings: BackupSettings, file_count: Option<usize>) -> (
    bool,
    Result<(), DaemonError>,
) {
    if running_spec(probe) {
        (false, Err(DaemonError::AlreadyRunning))
    } else if !settings.auto_backup_enabled {
        (true, Err(DaemonError::AutoBackupDisabled))
    } else if file_count is None {
        (true, Err(DaemonError::LoadMetadata))
    } else if file_count == Some(0usize) {
        (true, Err(DaemonError::NothingToBackUp))
    } else {
        (true, Ok(()))
    }
}

impl DaemonError {
    /// The message for the user. `detail` is what the system said, and is
    /// used by the errors that come from the system only.
    pub fn message(&self, detail: &str) -> (text: String)
        ensures
            text@ == message_spec(*self, detail@),
    {
        let reason: &str = match self {
            DaemonError::AlreadyRunning => "Daemon is already running. Use 'restart' to restart it.",
            DaemonError::NotRunning => "Daemon is not running",
            DaemonError::AutoBackupDisabled => "Auto-backup is disabled in settings. Please enable it first.",
            DaemonError::NothingToBackUp => "No files to backup. Please perform an initial backup first.",
            DaemonError::PidUnreadable => "Failed to read PID",
            DaemonError::SendTerm => "Failed to send SIGTERM: ",
            DaemonError::SendKill => "Failed to send SIGKILL: ",
            DaemonError::KillIneffective => "Failed to kill daemon process",
            DaemonError::LoadMetadata => "Failed to load metadata: ",
            DaemonError::LogFile => "Failed to create log file: ",
            DaemonError::ErrFile => "Failed to create error file: ",
            DaemonError::Daemonize => "Failed to daemonize: ",
        };
        let mut text = String::from_str(reason);
        match self {
            DaemonError::SendTerm
            | DaemonError::SendKill
            | DaemonError::LoadMetadata
            | DaemonError::LogFile
            | DaemonError::ErrFile
            | DaemonError::Daemonize => {
                text.append(detail);
            },
            _ => {},
        }
        text
    }
}

/// The state that a probe shows.
pub fn state_of(probe: &Probe) -> (state: DaemonState)
    ensures
        state == state_spec(*probe),
{
    match probe.pid {
        None => DaemonState::NotRunning,
        Some(pid) => if probe.alive {
            DaemonState::Running { pid }
        } else {
            DaemonState::StaleRecord { pid }
        },
    }
}

/// The manager of one daemon: the files it keeps below the project
/// directory.
#[derive(Debug)]
pub struct DaemonManager {
    pid_path: String,
    log_path: String,
    err_path: String,
    work_dir: String,
}

impl DaemonManager {
    /// The manager of the daemon that works in `project_dir`.
    pub fn new(project_dir: &str) -> (manager: DaemonManager)
        ensures
            manager.work_dir_spec() == project_dir@,
            manager.pid_path_spec() == path_join(project_dir@, "fass_backup_daemon.pid"@),
            manager.log_path_spec() == path_join(project_dir@, "fass_backup_daemon.log"@),
            manager.err_path_spec() == path_join(project_dir@, "fass_backup_daemon.err"@),
    {
        DaemonManager {
            pid_path: join(project_dir, "fass_backup_daemon.pid"),
            log_path: join(project_dir, "fass_backup_daemon.log"),
            err_path: join(project_dir, "fass_backup_daemon.err"),
            work_dir: String::from_str(project_dir),
        }
    }

    pub closed spec fn pid_path_spec(&self) -> Seq<char> {
        self.pid_path@
    }

    pub closed spec fn log_path_spec(&self) -> Seq<char> {
        self.log_path@
    }

    pub closed spec fn err_path_spec(&self) -> Seq<char> {
        self.err_path@
    }

    pub closed spec fn work_dir_spec(&self) -> Seq<char> {
        self.work_dir@
    }

    /// The path of the PID file.
    pub fn pid_path(&self) -> (path: &str)
        ensures
            path@ == self.pid_path_spec(),
    {
        self.pid_path.as_str()
    }

    /// The path of the file that takes the daemon's standard output.
    pub fn log_path(&self) -> (path: &str)
        ensures
            path@ == self.log_path_spec(),
    {
        self.log_path.as_str()
    }

    /// The path of the file that takes the daemon's standard error.
    pub fn err_path(&self) -> (path: &str)
        ensures
            path@ == self.err_path_spec(),
    {
        self.err_path.as_str()
    }

    /// The directory in which the daemon works.
    pub fn work_dir(&self) -> (path: &str)
        ensures
            path@ == self.work_dir_spec(),
    {
        self.work_dir.as_str()
    }

    /// Whether the daemon runs. A PID file that names a process which is
    /// gone is stale: the daemon does not run, and the file is to be
    /// removed.
    pub fn is_running(&self, probe: &Probe) -> (liveness: Liveness)
        ensures
            liveness.running == running_spec(*probe),
            liveness.remove_pid_file == (state_spec(*probe) is StaleRecord),
    {
        match state_of(probe) {
            DaemonState::NotRunning => Liveness { running: false, remove_pid_file: false },
            DaemonState::Running { pid } => Liveness { running: true, remove_pid_file: false },
            DaemonState::StaleRecord { pid } => Liveness { running: false, remove_pid_file: true },
        }
    }

    /// The status line: whether the daemon runs, under which process ID,
    /// and at which interval; or that auto-backup is off; or that the PID
    /// file is stale.
    pub fn status(&self, probe: &Probe, settings: Option<&BackupSettings>) -> (line: String)
        ensures
            line@ == status_spec(
                *probe,
                match settings {
                    Some(s) => Some(*s),
                    None => None,
                },
            ),
    {
        match state_of(probe) {
            DaemonState::NotRunning => String::from_str("\u{2717} Daemon is not running"),
            DaemonState::StaleRecord { pid } => String::from_str(
                "\u{26a0} Stale PID file found (daemon not running)",
            ),
            DaemonState::Running { pid } => {
                let pid_part = pid_text(pid);
                match settings {
                    None => {
                        let mut line = String::from_str("\u{2713} Daemon is running (PID: ");
                        line.append(pid_part.as_str());
                        line.append(")");
                        line
                    },
                    Some(s) => {
                        if s.auto_backup_enabled {
                            let minutes = decimal_text(s.interval_minutes as u64);
                            let mut line = String::from_str("\u{2713} Daemon is running (PID: ");
                            line.append(pid_part.as_str());
                            line.append(", Interval: ");
                            line.append(minutes.as_str());
                            line.append(" min)");
                            line
                        } else {
                            let mut line = String::from_str("\u{26a0} Daemon is running (PID: ");
                            line.append(pid_part.as_str());
                            line.append(") but auto-backup is disabled");
                            line
                        }
                    },
                }
            },
        }
    }

    /// Decides whether the daemon may be started. `file_count` is the number
    /// of files in the index, or `None` if the index could not be loaded.
    pub fn start(&self, probe: &Probe, settings: &BackupSettings, file_count: Option<usize>) -> (decision:
        StartDecision)
        ensures
            decision.purge_pid_file == start_spec(*probe, *settings, file_count).0,
            decision.outcome == start_spec(*probe, *settings, file_count).1,
    {
        if self.is_running(probe).running {
            return StartDecision {
                purge_pid_file: false,
                outcome: Err(DaemonError::AlreadyRunning),
            };
        }
        let outcome = if !settings.auto_backup_enabled {
            Err(DaemonError::AutoBackupDisabled)
        } else {
            match file_count {
                None => Err(DaemonError::LoadMetadata),
                Some(count) => if count == 0 {
                    Err(DaemonError::NothingToBackUp)
                } else {
                    Ok(())
                },
            }
        };
        StartDecision { purge_pid_file: true, outcome }
    }

    /// One step of the graceful stop: takes what came of the last action
    /// and says where the stop stands now and what to do next. A stop begins
    /// at `StopState::Start`, with a look at the process.
    pub fn stop(&self, state: StopState, event: StopEvent) -> (step: (StopState, StopAction))
        ensures
            step == stop_step_spec(state, event),
    {
        stop_step(state, event)
    }

    /// The forced stop: the process named in the PID file is to be sent the
    /// kill signal at once; the caller then waits `SETTLE_MILLIS` and removes
    /// the PID file. Fails if the PID file names no process.
    pub fn kill(&self, pid: Option<i32>) -> (target: Result<i32, DaemonError>)
        ensures
            match pid {
                Some(p) => target == Ok::<i32, DaemonError>(p),
                None => target == Err::<i32, DaemonError>(DaemonError::NotRunning),
            },
    {
        match pid {
            Some(p) => Ok(p),
            None => Err(DaemonError::NotRunning),
        }
    }

    /// The restart: a running daemon is stopped first and given
    /// `RESTART_MILLIS` to settle; then the daemon is started. A failure of
    /// the stop ends the restart.
    pub fn restart(&self, probe: &Probe) -> (plan: RestartPlan)
        ensures
            plan.stop_first == running_spec(*probe),
            plan.settle_millis == if running_spec(*probe) {
                RESTART_MILLIS
            } else {
                0
            },
    {
        if self.is_running(probe).running {
            RestartPlan { stop_first: true, settle_millis: RESTART_MILLIS }
        } else {
            RestartPlan { stop_first: false, settle_millis: 0 }
        }
    }
}

/// What the user asks of the daemon.
#[derive(Debug, Clone, Copy, PartialEq, Eq, Structural)]
pub enum DaemonCommand {
    Start,
    Stop,
    Restart,
    Status,
}

/// The word for a command.
pub open spec fn command_word(command: DaemonCommand) -> Seq<char> {
    match command {
        DaemonCommand::Start => "start"@,
        DaemonCommand::Stop => "stop"@,
        DaemonCommand::Restart => "restart"@,
        DaemonCommand::Status => "status"@,
    }
}

/// The command that a word names, if it names one.
pub open spec fn command_of(word: Seq<char>) -> Option<DaemonCommand> {
    if word == command_word(DaemonCommand::Start) {
        Some(DaemonCommand::Start)
    } else if word == command_word(DaemonCommand::Stop) {
        Some(DaemonCommand::Stop)
    } else if word == command_word(DaemonCommand::Restart) {
        Some(DaemonCommand::Restart)
    } else if word == command_word(DaemonCommand::Status) {
        Some(DaemonCommand::Status)
    } else {
        None
    }
}

impl DaemonCommand {
    /// Reads a command word; `None` for any other word.
    pub fn parse(word: &str) -> (command: Option<DaemonCommand>)
        ensures
            command == command_of(word@),
    {
        if word.eq("start") {
            Some(DaemonCommand::Start)
        } else if word.eq("stop") {
            Some(DaemonCommand::Stop)
        } else if word.eq("restart") {
            Some(DaemonCommand::Restart)
        } else if word.eq("status") {
            Some(DaemonCommand::Status)
        } else {
            None
        }
    }

    /// The word for the command.
    pub fn as_str(&self) -> (word: &'static str)
        ensures
            word@ == command_word(*self),
    {
        match self {
            DaemonCommand::Start => "start",
            DaemonCommand::Stop => "stop",
            DaemonCommand::Restart => "restart",
            DaemonCommand::Status => "status",
        }
    }
}

/// The four command words differ, so a word names one command only.
pub proof fn lemma_command_words_distinct()
    ensures
        forall|c: DaemonCommand| #[trigger] command_of(command_word(c)) == Some(c),
{
    reveal_strlit("start");
    reveal_strlit("stop");
    reveal_strlit("restart");
    reveal_strlit("status");
    assert("start"@.len() == 5);
    assert("stop"@.len() == 4);
    assert("restart"@.len() == 7);
    assert("status"@.len() == 6);
}

} // verus!
