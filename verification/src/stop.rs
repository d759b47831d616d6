//! Stopping the daemon: first the request to terminate, then, if the
//! process is still there after the grace period, the kill.
//!
//! The stop is a small machine. It names the next thing to do; the caller
//! does it and reports what came of it.

use crate::daemon::{running_spec, DaemonError, Probe};
use vstd::prelude::*;

verus! {

/// How often the process is looked at during the grace period.
pub const GRACE_POLLS: u32 = 20;

/// The wait before each look at the process, in milliseconds.
pub const POLL_MILLIS: u64 = 500;

/// The signal to send.
#[derive(Debug, Clone, Copy, PartialEq, Eq, Structural)]
pub enum Signal {
    Terminate,
    Kill,
}

/// Where the stop stands. `polls` counts the looks at the process that the
/// grace period has seen so far.
#[derive(Debug, Clone, Copy, PartialEq, Eq, Structural)]
pub enum StopState {
    Start,
    Terminating { pid: i32 },
    Waiting { pid: i32, polls: u32 },
    Polling { pid: i32, polls: u32 },
    Escalating { pid: i32 },
    Killing { pid: i32 },
    Settling { pid: i32 },
    Confirming { pid: i32 },
    Succeeding,
    Refusing,
    Done { error: Option<DaemonError> },
}

/// What the caller does next. `Probe`: read the PID file and ask whether the
/// process exists. `Send`: send the signal. `Wait`: sleep. `RemovePidFile`:
/// remove the PID file, whether or not it is there. `Finish`: the stop is
/// over, with success or with the error.
#[derive(Debug, Clone, Copy, PartialEq, Eq, Structural)]
pub enum StopAction {
    Probe,
    Send { pid: i32, signal: Signal },
    Wait { millis: u64 },
    RemovePidFile,
    Finish { error: Option<DaemonError> },
}

/// What came of the last action.
#[derive(Debug, Clone, Copy, PartialEq, Eq, Structural)]
pub enum StopEvent {
    Probed { probe: Probe },
    Sent,
    SendFailed,
    Waited,
    Removed,
}

/// The action that a state waits for the outcome of.
pub open spec fn pending(state: StopState) -> StopAction {
    match state {
        StopState::Start => StopAction::Probe,
        StopState::Terminating { pid } => StopAction::Send { pid, signal: Signal::Terminate },
        StopState::Waiting { pid, polls } => StopAction::Wait { millis: POLL_MILLIS },
        StopState::Polling { pid, polls } => StopAction::Probe,
        StopState::Escalating { pid } => StopAction::Probe,
        StopState::Killing { pid } => StopAction::Send { pid, signal: Signal::Kill },
        StopState::Settling { pid } => StopAction::Wait { millis: POLL_MILLIS },
        StopState::Confirming { pid } => StopAction::Probe,
        StopState::Succeeding => StopAction::RemovePidFile,
        StopState::Refusing => StopAction::RemovePidFile,
        StopState::Done { error } => StopAction::Finish { error },
    }
}

/// Whether an event is an outcome of the action that the state waits for.
pub open spec fn awaited(state: StopState, event: StopEvent) -> bool {
    match pending(state) {
        StopAction::Probe => event is Probed,
        StopAction::Send { pid, signal } => event is Sent || event is SendFailed,
        StopAction::Wait { millis } => event is Waited,
        StopAction::RemovePidFile => event is Removed,
        StopAction::Finish { error } => false,
    }
}

/// The state after an awaited event.
///
/// A daemon that does not run is not stopped: the PID file goes and the stop
/// fails. A running daemon is asked to terminate and then looked at every
/// `POLL_MILLIS`, `GRACE_POLLS` times at most. Once it is gone the PID file
/// goes and the stop has succeeded. If it is still there after the last look
/// it is killed, given `POLL_MILLIS` to go, and looked at once more: gone
/// means success, still there means failure.
pub open spec fn next_state(state: StopState, event: StopEvent) -> StopState {
    match state {
        StopState::Start => if running_spec(event->probe) {
            StopState::Terminating { pid: event->probe.pid->Some_0 }
        } else {
            StopState::Refusing
        },
        StopState::Terminating { pid } => if event is Sent {
            StopState::Waiting { pid, polls: 0 }
        } else {
            StopState::Done { error: Some(DaemonError::SendTerm) }
        },
        StopState::Waiting { pid, polls } => StopState::Polling { pid, polls },
        StopState::Polling { pid, polls } => if !running_spec(event->probe) {
            StopState::Succeeding
        } else if polls + 1 < GRACE_POLLS {
            StopState::Waiting { pid, polls: (polls + 1) as u32 }
        } else {
            StopState::Escalating { pid }
        },
        StopState::Escalating { pid } => if running_spec(event->probe) {
            StopState::Killing { pid }
        } else {
            StopState::Succeeding
        },
        StopState::Killing { pid } => if event is Sent {
            StopState::Settling { pid }
        } else {
            StopState::Done { error: Some(DaemonError::SendKill) }
        },
        StopState::Settling { pid } => StopState::Confirming { pid },
        StopState::Confirming { pid } => if running_spec(event->probe) {
            StopState::Done { error: Some(DaemonError::KillIneffective) }
        } else {
            StopState::Succeeding
        },
        StopState::Succeeding => StopState::Done { error: None },
        StopState::Refusing => StopState::Done { error: Some(DaemonError::NotRunning) },
        StopState::Done { error } => state,
    }
}

/// One step of the stop: an awaited event moves the machine on; any other
/// event leaves it where it is. Either way the action of the state reached
/// is what the caller does next.
pub open spec fn stop_step_spec(state: StopState, event: StopEvent) -> (StopState, StopAction) {
    let next = if awaited(state, event) {
        next_state(state, event)
    } else {
        state
    };
    (next, pending(next))
}

/// The action that a state waits for the outcome of.
pub fn pending_action(state: StopState) -> (action: StopAction)
    ensures
        action == pending(state),
{
    match state {
        StopState::Start => StopAction::Probe,
        StopState::Terminating { pid } => StopAction::Send { pid, signal: Signal::Terminate },
        StopState::Waiting { pid, polls } => StopAction::Wait { millis: POLL_MILLIS },
        StopState::Polling { pid, polls } => StopAction::Probe,
        StopState::Escalating { pid } => StopAction::Probe,
        StopState::Killing { pid } => StopAction::Send { pid, signal: Signal::Kill },
        StopState::Settling { pid } => StopAction::Wait { millis: POLL_MILLIS },
        StopState::Confirming { pid } => StopAction::Probe,
        StopState::Succeeding => StopAction::RemovePidFile,
        StopState::Refusing => StopAction::RemovePidFile,
        StopState::Done { error } => StopAction::Finish { error },
    }
}

fn probe_runs(probe: Probe) -> (running: bool)
    ensures
        running == running_spec(probe),
{
    probe.pid.is_some() && probe.alive
}

/// Begins a stop: the first thing to do is to look at the process.
pub fn begin_stop() -> (first: (StopState, StopAction))
    ensures
        first == (StopState::Start, StopAction::Probe),
{
    (StopState::Start, StopAction::Probe)
}

/// One step of the stop: takes what came of the last action and says where
/// the stop stands now and what to do next.
pub fn stop_step(state: StopState, event: StopEvent) -> (step: (StopState, StopAction))
    ensures
        step == stop_step_spec(state, event),
{
    let next = match (state, event) {
        (StopState::Start, StopEvent::Probed { probe }) => {
            match probe.pid {
                Some(pid) => if probe.alive {
                    StopState::Terminating { pid }
                } else {
                    StopState::Refusing
                },
                None => StopState::Refusing,
            }
        },
        (StopState::Terminating { pid }, StopEvent::Sent) => StopState::Waiting { pid, polls: 0 },
        (StopState::Terminating { pid }, StopEvent::SendFailed) => StopState::Done {
            error: Some(DaemonError::SendTerm),
        },
        (StopState::Waiting { pid, polls }, StopEvent::Waited) => StopState::Polling { pid, polls },
        (StopState::Polling { pid, polls }, StopEvent::Probed { probe }) => {
            if !probe_runs(probe) {
                StopState::Succeeding
            } else if polls < GRACE_POLLS - 1 {
                StopState::Waiting { pid, polls: polls + 1 }
            } else {
                StopState::Escalating { pid }
            }
        },
        (StopState::Escalating { pid }, StopEvent::Probed { probe }) => {
            if probe_runs(probe) {
                StopState::Killing { pid }
            } else {
                StopState::Succeeding
            }
        },
        (StopState::Killing { pid }, StopEvent::Sent) => StopState::Settling { pid },
        (StopState::Killing { pid }, StopEvent::SendFailed) => StopState::Done {
            error: Some(DaemonError::SendKill),
        },
        (StopState::Settling { pid }, StopEvent::Waited) => StopState::Confirming { pid },
        (StopState::Confirming { pid }, StopEvent::Probed { probe }) => {
            if probe_runs(probe) {
                StopState::Done { error: Some(DaemonError::KillIneffective) }
            } else {
                StopState::Succeeding
            }
        },
        (StopState::Succeeding, StopEvent::Removed) => StopState::Done { error: None },
        (StopState::Refusing, StopEvent::Removed) => StopState::Done {
            error: Some(DaemonError::NotRunning),
        },
        _ => state,
    };
    (next, pending_action(next))
}

/// The time that an action makes the caller wait, in milliseconds.
pub open spec fn wait_of(action: StopAction) -> nat {
    match action {
        StopAction::Wait { millis } => millis as nat,
        _ => 0,
    }
}

/// Where the stop stands after a run of events, from its start.
pub open spec fn run_state(events: Seq<StopEvent>) -> StopState
    decreases events.len(),
{
    if events.len() == 0 {
        StopState::Start
    } else {
        stop_step_spec(run_state(events.drop_last()), events.last()).0
    }
}

/// The time that the caller has been made to wait in a run of events, the
/// wait that the last step asks for included.
pub open spec fn run_wait(events: Seq<StopEvent>) -> nat
    decreases events.len(),
{
    if events.len() == 0 {
        0
    } else {
        run_wait(events.drop_last()) + wait_of(
            stop_step_spec(run_state(events.drop_last()), events.last()).1,
        )
    }
}

/// Every event of the run is an outcome of the action asked for before it.
pub open spec fn orderly(events: Seq<StopEvent>) -> bool {
    forall|i: int|
        0 <= i < events.len() ==> awaited(run_state(events.take(i)), #[trigger] events[i])
}

/// How long the caller has waited when the stop stands at a state.
pub open spec fn on_schedule(state: StopState, waited: nat) -> bool {
    match state {
        StopState::Start => waited == 0,
        StopState::Terminating { pid } => waited == 0,
        StopState::Waiting { pid, polls } => polls < GRACE_POLLS && waited == POLL_MILLIS * (polls
            + 1),
        StopState::Polling { pid, polls } => polls < GRACE_POLLS && waited == POLL_MILLIS * (polls
            + 1),
        StopState::Escalating { pid } => waited == POLL_MILLIS * GRACE_POLLS,
        StopState::Killing { pid } => waited == POLL_MILLIS * GRACE_POLLS,
        StopState::Settling { pid } => waited == POLL_MILLIS * GRACE_POLLS + POLL_MILLIS,
        StopState::Confirming { pid } => waited == POLL_MILLIS * GRACE_POLLS + POLL_MILLIS,
        StopState::Refusing => waited == 0,
        StopState::Succeeding => waited <= POLL_MILLIS * GRACE_POLLS + POLL_MILLIS,
        StopState::Done { error } => waited <= POLL_MILLIS * GRACE_POLLS + POLL_MILLIS,
    }
}

/// An awaited event keeps the stop on schedule.
pub proof fn lemma_step_on_schedule(state: StopState, event: StopEvent, waited: nat)
    requires
        on_schedule(state, waited),
        awaited(state, event),
    ensures
        on_schedule(
            stop_step_spec(state, event).0,
            waited + wait_of(stop_step_spec(state, event).1),
        ),
{
}

/// In an orderly run the stop is on schedule throughout.
pub proof fn lemma_run_on_schedule(events: Seq<StopEvent>)
    requires
        orderly(events),
    ensures
        on_schedule(run_state(events), run_wait(events)),
    decreases events.len(),
{
    if events.len() > 0 {
        let front = events.drop_last();
        assert forall|i: int| 0 <= i < front.len() implies awaited(
            run_state(front.take(i)),
            #[trigger] front[i],
        ) by {
            assert(front.take(i) =~= events.take(i));
            assert(front[i] == events[i]);
        }
        lemma_run_on_schedule(front);
        assert(events.take(events.len() - 1) =~= front);
        assert(awaited(run_state(front), events[events.len() - 1]));
        lemma_step_on_schedule(run_state(front), events.last(), run_wait(front));
    }
}

/// However a stop goes, the caller waits ten and a half seconds at most:
/// the grace period of ten seconds and the half second after the kill. The
/// kill signal is asked for only when the grace period has passed in full.
pub proof fn lemma_stop_is_bounded(events: Seq<StopEvent>)
    requires
        orderly(events),
    ensures
        run_wait(events) <= 10_500,
        pending(run_state(events)) is Send && pending(run_state(events))->signal == Signal::Kill
            ==> run_wait(events) == 10_000,
{
    lemma_run_on_schedule(events);
}

/// A stop of a daemon that does not run ends with the error "not running",
/// after the PID file was removed, and no signal is sent.
pub proof fn lemma_stop_when_not_running(probe: Probe)
    requires
        !running_spec(probe),
    ensures
        stop_step_spec(StopState::Start, StopEvent::Probed { probe }) == (
            StopState::Refusing,
            StopAction::RemovePidFile,
        ),
        stop_step_spec(StopState::Refusing, StopEvent::Removed) == (
            StopState::Done { error: Some(DaemonError::NotRunning) },
            StopAction::Finish { error: Some(DaemonError::NotRunning) },
        ),
{
}

/// What a daemon that keeps running answers to an action: every probe
/// finds it alive, every signal is sent, every wait passes.
pub open spec fn stubborn_answer(action: StopAction, pid: i32) -> StopEvent {
    match action {
        StopAction::Probe => StopEvent::Probed { probe: Probe { pid: Some(pid), alive: true } },
        StopAction::Send { pid, signal } => StopEvent::Sent,
        StopAction::Wait { millis } => StopEvent::Waited,
        _ => StopEvent::Removed,
    }
}

/// Where the stop of a daemon that keeps running stands after so many
/// steps.
pub open spec fn stubborn_state(pid: i32, steps: nat) -> StopState
    decreases steps,
{
    if steps == 0 {
        StopState::Start
    } else {
        let before = stubborn_state(pid, (steps - 1) as nat);
        stop_step_spec(before, stubborn_answer(pending(before), pid)).0
    }
}

/// During the grace period a daemon that keeps running is looked at again
/// and again.
pub proof fn lemma_stubborn_grace(pid: i32, polls: nat)
    requires
        polls < GRACE_POLLS,
    ensures
        stubborn_state(pid, 2 + 2 * polls) == (StopState::Waiting { pid, polls: polls as u32 }),
    decreases polls,
{
    if polls == 0 {
        assert(stubborn_state(pid, 0) == StopState::Start);
        assert(stubborn_state(pid, 1) == (StopState::Terminating { pid }));
        assert(stubborn_state(pid, 2) == (StopState::Waiting { pid, polls: 0 }));
    } else {
        lemma_stubborn_grace(pid, (polls - 1) as nat);
        let n = (2 + 2 * (polls - 1)) as nat;
        assert(stubborn_state(pid, n) == (StopState::Waiting { pid, polls: (polls - 1) as u32 }));
        assert(stubborn_state(pid, n + 1) == (StopState::Polling {
            pid,
            polls: (polls - 1) as u32,
        }));
        assert(stubborn_state(pid, n + 2) == (StopState::Waiting { pid, polls: polls as u32 }));
    }
}

/// A daemon that ignores the request to terminate is killed: after the
/// twentieth look the kill signal is asked for, and if even that does not
/// end the process the stop fails.
pub proof fn lemma_stubborn_is_killed(pid: i32)
    ensures
        pending(stubborn_state(pid, 43)) == (StopAction::Send { pid, signal: Signal::Kill }),
        stubborn_state(pid, 46) == (StopState::Done {
            error: Some(DaemonError::KillIneffective),
        }),
{
    lemma_stubborn_grace(pid, 19);
    assert(stubborn_state(pid, 40) == (StopState::Waiting { pid, polls: 19 }));
    assert(stubborn_state(pid, 41) == (StopState::Polling { pid, polls: 19 }));
    assert(stubborn_state(pid, 42) == (StopState::Escalating { pid }));
    assert(stubborn_state(pid, 43) == (StopState::Killing { pid }));
    assert(stubborn_state(pid, 44) == (StopState::Settling { pid }));
    assert(stubborn_state(pid, 45) == (StopState::Confirming { pid }));
    assert(stubborn_state(pid, 46) == (StopState::Done {
        error: Some(DaemonError::KillIneffective),
    }));
}

} // verus!
