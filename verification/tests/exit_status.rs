use ralph_robot::exit_status::{exit_status_with_name, terminal_exit_status, TerminalExitStatus};
use ralph_robot::process_group::{process_group_target, TerminationStep};

#[test]
fn an_exit_code_is_reported() {
    let status = terminal_exit_status(Some(7), None);
    assert_eq!(status.exit_code, Some(7));
    assert_eq!(status.signal, None);
    assert_eq!(terminal_exit_status(Some(0), None).exit_code, Some(0));
    assert_eq!(terminal_exit_status(Some(-1), None).exit_code, Some(u32::MAX));
    assert_eq!(terminal_exit_status(Some(i32::MIN), None).exit_code, Some(0x8000_0000));
}

#[test]
fn a_signal_is_reported_by_its_name() {
    let names = [
        (1, "SIGHUP"),
        (2, "SIGINT"),
        (3, "SIGQUIT"),
        (4, "SIGILL"),
        (6, "SIGABRT"),
        (8, "SIGFPE"),
        (9, "SIGKILL"),
        (11, "SIGSEGV"),
        (14, "SIGALRM"),
        (15, "SIGTERM"),
    ];
    for (number, name) in names {
        let status = terminal_exit_status(None, Some(number));
        assert_eq!(status.exit_code, None);
        assert_eq!(status.signal.as_deref(), Some(name));
    }
}

#[test]
fn a_signal_without_a_name_is_reported_by_its_number() {
    assert_eq!(terminal_exit_status(None, Some(9999)).signal.as_deref(), Some("9999"));
    assert_eq!(terminal_exit_status(None, Some(-3)).signal.as_deref(), Some("-3"));
    let status = exit_status_with_name(Some(1), Some(50), None);
    assert_eq!(status.signal.as_deref(), Some("50"));
    let status = exit_status_with_name(None, Some(50), Some("SIGODD".to_string()));
    assert_eq!(status.signal.as_deref(), Some("SIGODD"));
    assert_eq!(exit_status_with_name(None, None, Some("SIGODD".to_string())).signal, None);
}

#[test]
fn a_status_may_say_nothing() {
    let status = TerminalExitStatus::new().clone();
    assert_eq!(status.exit_code, None);
    assert_eq!(status.signal, None);
}

#[test]
fn a_process_group_is_addressed_by_the_negated_number() {
    assert_eq!(process_group_target(1234), -1234);
    assert_eq!(process_group_target(0), 0);
    assert_eq!(process_group_target(i32::MAX as u32), -i32::MAX);
    assert_eq!(process_group_target(u32::MAX), 1);
}

#[test]
fn a_process_group_gets_time_to_end() {
    let first = TerminationStep::first(Some(42));
    assert_eq!(first, TerminationStep::SendTerm { target: -42 });
    let second = first.next(true);
    assert_eq!(second, TerminationStep::Pause { target: -42, millis: 100 });
    let third = second.next(true);
    assert_eq!(third, TerminationStep::SendKill { target: -42 });
    assert_eq!(third.next(false), TerminationStep::Finished);
}

#[test]
fn a_process_group_that_cannot_be_reached_is_left_alone() {
    let first = TerminationStep::first(Some(42));
    assert_eq!(first.next(false), TerminationStep::Finished);
    assert_eq!(TerminationStep::first(None), TerminationStep::Finished);
    assert_eq!(TerminationStep::Finished.next(true), TerminationStep::Finished);
}
