use ralph_robot::acp_error::AcpErrorCode;
use ralph_robot::cleanup::{Cleanup, CleanupKind, CleanupStep};
use ralph_robot::exit_status::{terminal_exit_status, TerminalExitStatus};
use ralph_robot::terminal::{KillPlan, ReleasePlan, Terminals, WaitPlan};

type Table = Terminals<u8, char>;

fn started() -> (Table, String, usize) {
    let mut table = Table::new();
    let cell = table.next_cell();
    let (id, _) = table.create_terminal(1, Some(44), None, 'r');
    (table, id, cell)
}

/// Does all the steps of a cleaning up, and says which they were.
fn run(
    table: &mut Table,
    mut cleanup: Cleanup<u8, char>,
    ended: Option<TerminalExitStatus>,
) -> (Vec<CleanupStep>, bool, Option<TerminalExitStatus>) {
    let mut steps = Vec::new();
    loop {
        let step = cleanup.step();
        steps.push(step);
        match step {
            CleanupStep::EndGroup { .. } => table.group_ended(&mut cleanup),
            CleanupStep::AwaitChild => {
                assert_eq!(table.child_ended(&mut cleanup, ended.clone()), Some(1));
            }
            CleanupStep::DrainReader => cleanup.ticket.reader = None,
            CleanupStep::Finish => {
                let (removed, status) = table.finish_cleanup(cleanup);
                return (steps, removed.is_some(), status);
            }
        }
    }
}

#[test]
fn one_who_waits_lets_the_command_end_by_itself() {
    let (mut table, id, cell) = started();
    let ticket = match table.wait_for_terminal_exit(&id) {
        Ok(WaitPlan::AwaitChild(ticket)) => ticket,
        other => panic!("unexpected plan: {other:?}"),
    };
    let cleanup = Cleanup::waiting(ticket);
    assert_eq!(cleanup.kind, CleanupKind::Wait);
    let ended = terminal_exit_status(Some(3), None);
    let (steps, removed, status) = run(&mut table, cleanup, Some(ended));
    assert_eq!(
        steps,
        vec![
            CleanupStep::AwaitChild,
            CleanupStep::EndGroup { pid: Some(44) },
            CleanupStep::DrainReader,
            CleanupStep::Finish,
        ]
    );
    assert!(!removed);
    assert_eq!(status.unwrap().exit_code, Some(3));
    assert_eq!(table.published_status(cell).unwrap().exit_code, Some(3));
}

#[test]
fn one_who_takes_up_the_work_knows_the_status() {
    let (mut table, id, cell) = started();
    if let Ok(WaitPlan::AwaitChild(ticket)) = table.wait_for_terminal_exit(&id) {
        let mut cleanup = Cleanup::waiting(ticket);
        table.child_ended(&mut cleanup, Some(terminal_exit_status(Some(5), None)));
        table.group_ended(&mut cleanup);
        table.abandon(cleanup.ticket);
    }
    let cleanup = match table.wait_for_terminal_exit(&id) {
        Ok(WaitPlan::Finalize(ticket, status)) => Cleanup::finalizing(ticket, status),
        other => panic!("unexpected plan: {other:?}"),
    };
    let (steps, _, status) = run(&mut table, cleanup, None);
    assert_eq!(
        steps,
        vec![
            CleanupStep::EndGroup { pid: None },
            CleanupStep::DrainReader,
            CleanupStep::Finish,
        ]
    );
    assert_eq!(status.unwrap().exit_code, Some(5));
    assert_eq!(table.published_status(cell).unwrap().exit_code, Some(5));
}

#[test]
fn one_who_kills_sends_the_signals_first() {
    let (mut table, id, cell) = started();
    let ticket = match table.kill_terminal_command(&id) {
        Ok(KillPlan::Cleanup(ticket)) => ticket,
        other => panic!("unexpected plan: {other:?}"),
    };
    let (steps, removed, status) = run(&mut table, Cleanup::killing(ticket), None);
    assert_eq!(
        steps,
        vec![
            CleanupStep::EndGroup { pid: Some(44) },
            CleanupStep::AwaitChild,
            CleanupStep::DrainReader,
            CleanupStep::Finish,
        ]
    );
    assert!(!removed);
    assert!(status.is_none());
    let published = table.published_status(cell).unwrap();
    assert_eq!((published.exit_code, published.signal), (None, None));
}

#[test]
fn one_who_releases_gets_the_terminal_back() {
    let (mut table, id, cell) = started();
    let ticket = match table.release_terminal(&id, false) {
        Ok(ReleasePlan::Cleanup(ticket)) => ticket,
        other => panic!("unexpected plan: {other:?}"),
    };
    let ended = terminal_exit_status(None, Some(15));
    let (steps, removed, status) = run(&mut table, Cleanup::releasing(ticket), Some(ended));
    assert_eq!(steps.len(), 4);
    assert_eq!(steps[0], CleanupStep::EndGroup { pid: Some(44) });
    assert!(removed);
    assert!(status.is_none());
    assert!(table.terminal_output(&id).is_err());
    let published = table.published_status(cell).unwrap();
    assert_eq!(published.signal.as_deref(), Some("SIGTERM"));
}

#[test]
fn a_failed_wait_is_an_error_only_for_one_who_waits() {
    let ended = terminal_exit_status(Some(2), None);
    for kind in [CleanupKind::Wait, CleanupKind::Kill, CleanupKind::Release] {
        let seen = kind.child_waited(Ok(ended.clone())).unwrap();
        assert_eq!(seen.unwrap().exit_code, Some(2));
    }
    let error = CleanupKind::Wait.child_waited(Err("gone".to_string())).unwrap_err();
    assert_eq!(error.code, AcpErrorCode::InternalError);
    assert_eq!(error.message, "wait failed: gone");
    for kind in [CleanupKind::Kill, CleanupKind::Release] {
        assert!(kind.child_waited(Err("gone".to_string())).unwrap().is_none());
    }
}
