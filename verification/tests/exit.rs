use fusefs::exit::{
    graceful_exit, handle_signal, wait_for_fs_unmount, ExitStep, SignalAction, SignalState,
    UnmountOutcome, EXIT_CLEAN, EXIT_FAILURE, SIGINT, SIGTERM,
};

#[test]
fn signal_numbers_are_the_systems() {
    assert_eq!(SIGTERM, signal_hook::consts::SIGTERM);
    assert_eq!(SIGINT, signal_hook::consts::SIGINT);
    assert_eq!(SIGTERM, libc::SIGTERM);
    assert_eq!(SIGINT, libc::SIGINT);
}

#[test]
fn first_termination_signal_starts_the_shutdown() {
    let mut state = SignalState::Running;
    assert_eq!(handle_signal(SIGTERM, &mut state), SignalAction::Forward(SIGTERM));
    assert_eq!(state, SignalState::ShuttingDown);
    let mut state = SignalState::Running;
    assert_eq!(handle_signal(SIGINT, &mut state), SignalAction::Forward(SIGINT));
    assert_eq!(state, SignalState::ShuttingDown);
}

#[test]
fn second_signal_of_any_kind_forces_the_exit() {
    for second in [SIGTERM, SIGINT, 1, 10, -3] {
        let mut state = SignalState::Running;
        handle_signal(SIGTERM, &mut state);
        assert_eq!(handle_signal(second, &mut state), SignalAction::Exit(1));
        assert_eq!(state, SignalState::Terminated);
    }
}

#[test]
fn other_signals_are_ignored_while_running() {
    let mut state = SignalState::Running;
    for sig in [1, 3, 10, 12, 0, -1, i32::MAX] {
        assert_eq!(handle_signal(sig, &mut state), SignalAction::Ignore);
        assert_eq!(state, SignalState::Running);
    }
    assert_eq!(handle_signal(SIGINT, &mut state), SignalAction::Forward(SIGINT));
}

#[test]
fn a_terminated_process_stays_terminated() {
    let mut state = SignalState::Terminated;
    assert_eq!(handle_signal(SIGTERM, &mut state), SignalAction::Exit(EXIT_FAILURE));
    assert_eq!(state, SignalState::Terminated);
    assert_eq!(handle_signal(1, &mut state), SignalAction::Exit(EXIT_FAILURE));
    assert_eq!(state, SignalState::Terminated);
}

#[test]
fn exit_waits_for_a_token() {
    assert_eq!(graceful_exit(None, false), ExitStep::Wait);
    assert_eq!(graceful_exit(None, true), ExitStep::Wait);
    assert_eq!(graceful_exit(Some(SIGTERM), false), ExitStep::AwaitUnmount);
    assert_eq!(graceful_exit(Some(SIGINT), true), ExitStep::HandOff);
}

#[test]
fn exit_status_follows_the_unmount() {
    assert_eq!(wait_for_fs_unmount(UnmountOutcome::Unmounted), 0);
    assert_eq!(wait_for_fs_unmount(UnmountOutcome::Failed), 1);
    assert_eq!(wait_for_fs_unmount(UnmountOutcome::Disconnected), 1);
    assert_eq!(EXIT_CLEAN, 0);
    assert_eq!(EXIT_FAILURE, 1);
}
