//! The signal coordinator: what a termination signal does to a running
//! process, and with which status the process leaves.
use vstd::prelude::*;

verus! {

/// The interrupt signal.
pub const SIGINT: i32 = 2;

/// The termination signal.
pub const SIGTERM: i32 = 15;

/// Exit status after a clean unmount or a completed handoff.
pub const EXIT_CLEAN: i32 = 0;

/// Exit status after a failed mount or unmount, a broken channel between
/// threads, or a forced exit.
pub const EXIT_FAILURE: i32 = 1;

/// Where the process stands between start and exit.
#[derive(Clone, Copy, Debug, PartialEq, Eq, Structural)]
pub enum SignalState {
    /// Serving; no termination signal has arrived.
    Running,
    /// A termination signal has arrived and the unmount is under way.
    ShuttingDown,
    /// A further signal has arrived; the process is to exit at once.
    Terminated,
}

/// What the caller does about a signal.
#[derive(Clone, Copy, Debug, PartialEq, Eq, Structural)]
pub enum SignalAction {
    /// Pass the signal on as the shutdown token.
    Forward(i32),
    /// Note the signal and go on.
    Ignore,
    /// Remove the rendezvous socket file and exit at once with this status.
    Exit(i32),
}

/// `sig` is one of the signals that ask the process to terminate.
pub open spec fn is_termination(sig: i32) -> bool {
    sig == SIGTERM || sig == SIGINT
}

/// The state that follows `state` when `sig` arrives.
pub open spec fn next_state(state: SignalState, sig: i32) -> SignalState {
    match state {
        SignalState::Running => if is_termination(sig) {
            SignalState::ShuttingDown
        } else {
            SignalState::Running
        },
        SignalState::ShuttingDown => SignalState::Terminated,
        SignalState::Terminated => SignalState::Terminated,
    }
}

/// What is done about `sig` when it arrives in `state`.
pub open spec fn action_for(state: SignalState, sig: i32) -> SignalAction {
    match state {
        SignalState::Running => if is_termination(sig) {
            SignalAction::Forward(sig)
        } else {
            SignalAction::Ignore
        },
        SignalState::ShuttingDown => SignalAction::Exit(EXIT_FAILURE),
        SignalState::Terminated => SignalAction::Exit(EXIT_FAILURE),
    }
}

/// How far a state is from the start.
pub open spec fn progress(state: SignalState) -> int {
    match state {
        SignalState::Running => 0,
        SignalState::ShuttingDown => 1,
        SignalState::Terminated => 2,
    }
}

/// Takes one signal. The first termination signal starts the shutdown and
/// is passed on; any signal after it forces the exit. A signal that asks
/// for nothing is ignored while the process runs.
pub fn handle_signal(sig: i32, state: &mut SignalState) -> (action: SignalAction)
    ensures
        *final(state) == next_state(*old(state), sig),
        action == action_for(*old(state), sig),
{
    match *state {
        SignalState::Running => {
            if sig == SIGTERM || sig == SIGINT {
                *state = SignalState::ShuttingDown;
                SignalAction::Forward(sig)
            } else {
                SignalAction::Ignore
            }
        },
        SignalState::ShuttingDown => {
            *state = SignalState::Terminated;
            SignalAction::Exit(EXIT_FAILURE)
        },
        SignalState::Terminated => SignalAction::Exit(EXIT_FAILURE),
    }
}

/// What the shutdown path does next.
#[derive(Clone, Copy, Debug, PartialEq, Eq, Structural)]
pub enum ExitStep {
    /// No shutdown token yet: keep waiting.
    Wait,
    /// Hand the kernel channel to the successor, then exit with the status
    /// of the handoff.
    HandOff,
    /// Wait for the unmount, then exit with `wait_for_fs_unmount`'s status.
    AwaitUnmount,
}

/// Decides what follows a look at the control channel: nothing while no
/// token has come; after a token the handoff if this instance is being
/// upgraded, the wait for the unmount if not.
pub fn graceful_exit(token: Option<i32>, upgrade: bool) -> (step: ExitStep)
    ensures
        step == (match token {
            None => ExitStep::Wait,
            Some(_) => if upgrade {
                ExitStep::HandOff
            } else {
                ExitStep::AwaitUnmount
            },
        }),
{
    match token {
        None => ExitStep::Wait,
        Some(_) => if upgrade {
            ExitStep::HandOff
        } else {
            ExitStep::AwaitUnmount
        },
    }
}

/// How the wait for the unmount ended.
#[derive(Clone, Copy, Debug, PartialEq, Eq, Structural)]
pub enum UnmountOutcome {
    /// The filesystem was unmounted.
    Unmounted,
    /// Mounting or unmounting failed.
    Failed,
    /// The serving thread went away without a word.
    Disconnected,
}

/// The exit status after the wait for the unmount: clean after an unmount,
/// failure after anything else.
pub fn wait_for_fs_unmount(outcome: UnmountOutcome) -> (code: i32)
    ensures
        code == (if outcome == UnmountOutcome::Unmounted {
            EXIT_CLEAN
        } else {
            EXIT_FAILURE
        }),
{
    match outcome {
        UnmountOutcome::Unmounted => EXIT_CLEAN,
        UnmountOutcome::Failed => EXIT_FAILURE,
        UnmountOutcome::Disconnected => EXIT_FAILURE,
    }
}

/// A state is never left for an earlier one, and only a termination signal
/// moves a running process.
pub proof fn law_signals_only_advance(state: SignalState, sig: i32)
    ensures
        progress(next_state(state, sig)) >= progress(state),
        state == SignalState::Running && !is_termination(sig) ==> next_state(state, sig)
            == SignalState::Running && action_for(state, sig) == SignalAction::Ignore,
{
}

/// After a first termination signal, the next signal of any kind forces the
/// exit with the status of a failure.
pub proof fn law_second_signal_forces_exit(first: i32, second: i32)
    requires
        is_termination(first),
    ensures
        action_for(SignalState::Running, first) == SignalAction::Forward(first),
        next_state(SignalState::Running, first) == SignalState::ShuttingDown,
        action_for(next_state(SignalState::Running, first), second) == SignalAction::Exit(
            EXIT_FAILURE,
        ),
        next_state(next_state(SignalState::Running, first), second) == SignalState::Terminated,
        EXIT_FAILURE != EXIT_CLEAN,
{
}

} // verus!
