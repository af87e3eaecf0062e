use ralph_robot::acp_error::{AcpError, AcpErrorCode};
use ralph_robot::exit_status::{terminal_exit_status, TerminalExitStatus};
use ralph_robot::terminal::{
    AwaitStep, KillPlan, PendingTerminalWait, ReleasePlan, Terminals, WaitPlan, RETRY_MILLIS,
};

type Table = Terminals<&'static str, &'static str>;

/// A table with one terminal, its name, and its shared part.
fn one_terminal(pid: u32, limit: Option<u64>) -> (Table, String, usize) {
    let mut table = Table::new();
    let cell = table.next_cell();
    let (id, replaced) = table.create_terminal("child", Some(pid), limit, "reader");
    assert!(replaced.is_none());
    (table, id, cell)
}

fn exited(code: i32) -> TerminalExitStatus {
    terminal_exit_status(Some(code), None)
}

fn killed() -> TerminalExitStatus {
    terminal_exit_status(None, Some(9))
}

fn await_child(table: &mut Table, id: &str) -> PendingTerminalWait<&'static str, &'static str> {
    match table.wait_for_terminal_exit(id) {
        Ok(WaitPlan::AwaitChild(ticket)) => ticket,
        other => panic!("unexpected plan: {other:?}"),
    }
}

fn kill_cleanup(table: &mut Table, id: &str) -> PendingTerminalWait<&'static str, &'static str> {
    match table.kill_terminal_command(id) {
        Ok(KillPlan::Cleanup(ticket)) => ticket,
        other => panic!("unexpected plan: {other:?}"),
    }
}

fn release_cleanup(table: &mut Table, id: &str) -> PendingTerminalWait<&'static str, &'static str> {
    match table.release_terminal(id, false) {
        Ok(ReleasePlan::Cleanup(ticket)) => ticket,
        other => panic!("unexpected plan: {other:?}"),
    }
}

/// The rest of a wait, from the end of the child on.
fn finish_wait(
    table: &mut Table,
    mut ticket: PendingTerminalWait<&'static str, &'static str>,
    status: TerminalExitStatus,
) {
    table.note_exit(&mut ticket, status.clone());
    let pid = ticket.pid;
    table.clear_terminal_pid_after_cleanup(&ticket.terminal_id.clone(), pid);
    ticket.reader = None;
    table.finish_wait(ticket, status);
}

fn waits_for(table: &mut Table, id: &str) -> usize {
    match table.wait_for_terminal_exit(id) {
        Ok(WaitPlan::AwaitExisting(cell)) => cell,
        other => panic!("unexpected plan: {other:?}"),
    }
}

fn signalled_pid(table: &mut Table, id: &str) -> Option<u32> {
    match table.kill_terminal_command(id) {
        Ok(KillPlan::SignalOnly { pid }) => pid,
        other => panic!("unexpected plan: {other:?}"),
    }
}

#[test]
fn test_create_terminal_and_output() {
    let (mut table, id, cell) = one_terminal(17, None);
    assert_eq!(id, "term-17");

    table.append_output(cell, b"hello ");
    table.append_output(cell, b"world\n");
    let ticket = await_child(&mut table, &id);
    assert_eq!(ticket.child, Some("child"));
    assert_eq!(ticket.reader, Some("reader"));
    assert_eq!(ticket.pid, Some(17));
    finish_wait(&mut table, ticket, exited(0));

    match table.wait_for_terminal_exit(&id) {
        Ok(WaitPlan::Done(status)) => assert_eq!(status.exit_code, Some(0)),
        other => panic!("unexpected plan: {other:?}"),
    }
    let answer = table.terminal_output(&id).unwrap();
    assert!(answer.output.contains("hello world"));
    assert!(!answer.truncated);
    assert!(answer.exit_status.is_some());
}

#[test]
fn test_terminal_output_limit_preserves_utf8_boundary() {
    let (mut table, id, cell) = one_terminal(17, Some(5));
    table.append_output(cell, b"a\xc3\xa9\xc3\xa9\xc3\xa9");
    let answer = table.terminal_output(&id).unwrap();
    assert_eq!(answer.output, "\u{00e9}\u{00e9}");
    assert!(answer.output.len() <= 5);
    assert!(answer.truncated);
    assert!(!answer.output.contains('\u{fffd}'));
    assert!(answer.exit_status.is_none());
}

#[test]
fn output_beyond_the_limit_is_reported_as_truncated() {
    let (mut table, id, cell) = one_terminal(17, Some(5));
    table.append_output(cell, b"12345");
    assert!(!table.terminal_output(&id).unwrap().truncated);
    table.append_output(cell, b"6");
    assert!(table.terminal_output(&id).unwrap().truncated);
    table.append_output(cell, b"789012345");
    let answer = table.terminal_output(&id).unwrap();
    assert_eq!(answer.output, "12345");
    assert!(answer.truncated);
}

#[test]
fn output_without_a_limit_shows_invalid_bytes_as_replaced() {
    let (mut table, id, cell) = one_terminal(17, None);
    table.append_output(cell, b"a\xffb");
    let answer = table.terminal_output(&id).unwrap();
    assert_eq!(answer.output, "a\u{fffd}b");
    assert!(!answer.truncated);
}

#[test]
fn test_release_terminal_removes_from_map() {
    let (mut table, id, _) = one_terminal(60, None);
    assert!(table.terminal_output(&id).is_ok());

    let mut ticket = release_cleanup(&mut table, &id);
    table.clear_terminal_pid_after_cleanup(&id, ticket.pid);
    assert_eq!(table.note_release_exit(&mut ticket, Some(killed())), Some("child"));
    ticket.reader = None;
    assert!(table.finish_release(ticket).is_some());

    assert!(table.terminal_output(&id).is_err());
}

#[test]
fn test_kill_terminal_keeps_in_map() {
    let (mut table, id, cell) = one_terminal(60, None);
    let mut ticket = kill_cleanup(&mut table, &id);
    table.clear_terminal_pid_after_cleanup(&id, ticket.pid);
    assert_eq!(table.note_kill_exit(&mut ticket, Some(killed())), Some("child"));
    ticket.reader = None;
    assert!(table.finish_kill(ticket).is_none());

    assert!(table.terminal_output(&id).is_ok());
    let status = table.published_status(cell).unwrap();
    assert_eq!(status.signal.as_deref(), Some("SIGKILL"));
    assert!(matches!(table.kill_terminal_command(&id), Ok(KillPlan::Done)));
}

#[test]
fn a_kill_that_cannot_see_the_end_still_publishes_one() {
    let (mut table, id, cell) = one_terminal(60, None);
    let mut ticket = kill_cleanup(&mut table, &id);
    table.note_kill_exit(&mut ticket, None);
    ticket.reader = None;
    table.finish_kill(ticket);
    let status = table.published_status(cell).unwrap();
    assert_eq!(status.exit_code, None);
    assert_eq!(status.signal, None);
}

#[test]
fn test_kill_terminal_during_wait_unblocks_waiter() {
    let (mut table, id, cell) = one_terminal(60, None);
    let ticket = await_child(&mut table, &id);

    assert_eq!(signalled_pid(&mut table, &id), Some(60));

    finish_wait(&mut table, ticket, killed());
    assert_ne!(table.published_status(cell).unwrap().exit_code, Some(0));
    assert!(table.terminal_output(&id).is_ok());
}

#[test]
fn test_cancelled_wait_returns_child_to_terminal_state() {
    let (mut table, id, cell) = one_terminal(60, None);
    let ticket = await_child(&mut table, &id);
    assert_eq!(table.abandon(ticket), (None, None));

    let mut ticket = kill_cleanup(&mut table, &id);
    assert_eq!(ticket.child, Some("child"));
    table.note_kill_exit(&mut ticket, Some(killed()));
    ticket.reader = None;
    table.finish_kill(ticket);

    assert_ne!(table.published_status(cell).unwrap().exit_code, Some(0));
    assert!(matches!(table.wait_for_terminal_exit(&id), Ok(WaitPlan::Done(_))));
    assert!(table.terminal_output(&id).is_ok());
}

#[test]
fn test_second_wait_takes_restored_child_after_first_wait_cancelled() {
    let (mut table, id, cell) = one_terminal(60, None);
    let first = await_child(&mut table, &id);
    assert_eq!(waits_for(&mut table, &id), cell);
    table.abandon(first);

    let second = await_child(&mut table, &id);
    assert_eq!(second.child, Some("child"));
    assert_eq!(second.reader, Some("reader"));
    finish_wait(&mut table, second, exited(7));
    assert_eq!(table.published_status(cell).unwrap().exit_code, Some(7));
}

#[test]
fn test_cancelled_cleanup_can_be_resumed_by_next_waiter() {
    let (mut table, id, cell) = one_terminal(60, None);
    let mut first = await_child(&mut table, &id);
    assert_eq!(table.note_exit(&mut first, exited(7)), Some("child"));
    assert_eq!(table.abandon(first), (None, None));

    match table.wait_for_terminal_exit(&id) {
        Ok(WaitPlan::Finalize(mut ticket, status)) => {
            assert_eq!(status.exit_code, Some(7));
            assert_eq!(ticket.child, None);
            assert_eq!(ticket.reader, Some("reader"));
            table.clear_terminal_pid_after_cleanup(&id, ticket.pid);
            ticket.reader = None;
            table.finish_wait(ticket, status);
        }
        other => panic!("unexpected plan: {other:?}"),
    }
    assert_eq!(table.published_status(cell).unwrap().exit_code, Some(7));
    assert_eq!(table.drain()[0].pid, None);
}

#[test]
fn test_second_waiter_waits_for_output_drain_before_returning() {
    let (mut table, id, cell) = one_terminal(60, None);
    let mut first = await_child(&mut table, &id);
    table.note_exit(&mut first, exited(0));

    assert_eq!(waits_for(&mut table, &id), cell);
    assert!(table.published_status(cell).is_none());

    table.append_output(cell, b"drained");
    first.reader = None;
    table.finish_wait(first, exited(0));
    assert_eq!(table.published_status(cell).unwrap().exit_code, Some(0));
    assert_eq!(table.terminal_output(&id).unwrap().output, "drained");
}

#[test]
fn test_kill_during_wait_cleanup_does_not_publish_before_drain() {
    let (mut table, id, cell) = one_terminal(60, None);
    let mut waiter = await_child(&mut table, &id);
    table.note_exit(&mut waiter, exited(0));

    assert!(matches!(table.kill_terminal_command(&id), Ok(KillPlan::SignalOnly { .. })));
    assert!(table.terminal_output(&id).unwrap().exit_status.is_none());

    table.append_output(cell, b"drained");
    waiter.reader = None;
    table.finish_wait(waiter, exited(0));
    let answer = table.terminal_output(&id).unwrap();
    assert_eq!(answer.output, "drained");
    assert_eq!(answer.exit_status.unwrap().exit_code, Some(0));
}

#[test]
fn test_cancelled_release_restores_terminal_for_cleanup() {
    let (mut table, id, _) = one_terminal(60, None);
    let ticket = release_cleanup(&mut table, &id);
    assert_eq!(table.abandon(ticket), (None, None));
    assert!(table.terminal_output(&id).is_ok());

    let mut ticket = release_cleanup(&mut table, &id);
    assert_eq!(ticket.child, Some("child"));
    assert_eq!(ticket.reader, Some("reader"));
    assert_eq!(ticket.pid, Some(60));
    table.note_release_exit(&mut ticket, Some(killed()));
    ticket.reader = None;
    table.finish_release(ticket);
    assert!(table.terminal_output(&id).is_err());
}

#[test]
fn test_release_waits_for_active_wait_owner_cleanup() {
    let (mut table, id, cell) = one_terminal(60, None);
    let waiter = await_child(&mut table, &id);

    assert!(matches!(
        table.release_terminal(&id, false),
        Ok(ReleasePlan::Wait { pid: Some(60) })
    ));
    finish_wait(&mut table, waiter, killed());
    assert!(matches!(table.release_terminal(&id, true), Ok(ReleasePlan::Gone)));

    assert_ne!(table.published_status(cell).unwrap().exit_code, Some(0));
    assert!(table.terminal_output(&id).is_err());
}

#[test]
fn test_waiters_return_status_after_release_removes_terminal() {
    let (mut table, id, _) = one_terminal(60, None);
    let owner = await_child(&mut table, &id);
    let second = waits_for(&mut table, &id);
    let third = waits_for(&mut table, &id);

    assert!(matches!(table.release_terminal(&id, false), Ok(ReleasePlan::Wait { .. })));
    finish_wait(&mut table, owner, exited(7));
    assert!(table.terminal_output(&id).is_err());

    assert_eq!(table.published_status(second).unwrap().exit_code, Some(7));
    assert_eq!(table.published_status(third).unwrap().exit_code, Some(7));
}

#[test]
fn test_waiter_returns_status_after_release_owned_cleanup_removes_terminal() {
    let (mut table, id, _) = one_terminal(60, None);
    let mut releaser = release_cleanup(&mut table, &id);
    let waiter = waits_for(&mut table, &id);

    table.note_release_exit(&mut releaser, Some(exited(7)));
    releaser.reader = None;
    table.finish_release(releaser);
    assert!(table.terminal_output(&id).is_err());

    let status = table.published_status(waiter).unwrap();
    assert!(status.exit_code.is_some() || status.signal.is_some());
}

#[test]
fn test_terminal_pid_is_cleared_after_wait_and_kill_cleanup() {
    let mut table = Table::new();
    let (waited, _) = table.create_terminal("a", Some(5), None, "ra");
    let ticket = await_child(&mut table, &waited);
    finish_wait(&mut table, ticket, exited(0));

    let (killed_id, _) = table.create_terminal("b", Some(6), None, "rb");
    let mut ticket = kill_cleanup(&mut table, &killed_id);
    table.clear_terminal_pid_after_cleanup(&killed_id, ticket.pid);
    table.note_kill_exit(&mut ticket, Some(killed()));
    ticket.reader = None;
    table.finish_kill(ticket);

    for state in table.drain() {
        assert_eq!(state.pid, None);
    }
}

#[test]
fn a_number_of_another_process_is_not_cleared() {
    let (mut table, id, _) = one_terminal(60, None);
    table.clear_terminal_pid_after_cleanup(&id, Some(61));
    table.clear_terminal_pid_after_cleanup(&id, None);
    table.clear_terminal_pid_after_cleanup("term-61", Some(60));
    assert_eq!(table.drain()[0].pid, Some(60));
}

#[test]
fn test_terminal_output_remains_available_while_kill_is_in_progress() {
    let (mut table, id, cell) = one_terminal(60, None);
    table.append_output(cell, b"ready\n");
    let ticket = kill_cleanup(&mut table, &id);
    assert!(table.terminal_output(&id).unwrap().output.contains("ready"));
    table.append_output(cell, b"more\n");
    assert!(table.terminal_output(&id).unwrap().output.contains("more"));
    table.abandon(ticket);
}

#[test]
fn test_second_wait_during_kill_observes_real_signal_status() {
    let (mut table, id, cell) = one_terminal(60, None);
    let first = await_child(&mut table, &id);
    assert_eq!(signalled_pid(&mut table, &id), Some(60));
    let second = waits_for(&mut table, &id);
    finish_wait(&mut table, first, killed());

    let second_status = table.published_status(second).unwrap();
    assert!(second_status.signal.is_some());
    assert_eq!(second_status.signal, table.published_status(cell).unwrap().signal);
}

#[test]
fn test_terminal_output_unknown_id_errors() {
    let mut table = Table::new();
    let error = table.terminal_output("nonexistent").unwrap_err();
    assert_eq!(error.code, AcpErrorCode::InvalidParams);
    assert_eq!(error.message, "unknown terminal: nonexistent");
    let error = table.wait_for_terminal_exit("x").unwrap_err();
    assert_eq!(error.message, "unknown terminal: x");
    let error = table.kill_terminal_command("x").unwrap_err();
    assert_eq!(error.message, "unknown terminal: x");
    let error = table.release_terminal("x", false).unwrap_err();
    assert_eq!(error.message, "unknown terminal: x");
    assert!(matches!(table.release_terminal("x", true), Ok(ReleasePlan::Gone)));
}

#[test]
fn test_terminal_failed_command_exit_code() {
    let (mut table, id, cell) = one_terminal(60, None);
    let ticket = await_child(&mut table, &id);
    finish_wait(&mut table, ticket, exited(1));
    assert_ne!(table.published_status(cell).unwrap().exit_code, Some(0));
}

#[test]
fn errors_of_the_system_are_internal() {
    let error = AcpError::wait_failed("gone");
    assert_eq!(error.code, AcpErrorCode::InternalError);
    assert_eq!(error.message, "wait failed: gone");
    let error = AcpError::spawn_failed("no such file");
    assert_eq!(error.code, AcpErrorCode::InternalError);
    assert_eq!(error.message, "spawn failed: no such file");
}

#[test]
fn a_release_after_the_end_removes_at_once() {
    let (mut table, id, cell) = one_terminal(60, None);
    let ticket = await_child(&mut table, &id);
    finish_wait(&mut table, ticket, exited(0));
    assert!(matches!(table.release_terminal(&id, false), Ok(ReleasePlan::Remove)));
    assert!(table.terminal_output(&id).is_err());
    assert_eq!(table.published_status(cell).unwrap().exit_code, Some(0));
}

#[test]
fn a_release_that_cannot_see_the_end_publishes_none() {
    let (mut table, id, cell) = one_terminal(60, None);
    let mut ticket = release_cleanup(&mut table, &id);
    table.note_release_exit(&mut ticket, None);
    ticket.reader = None;
    assert!(table.finish_release(ticket).is_some());
    assert!(table.published_status(cell).is_none());
}

#[test]
fn a_kill_finishes_a_release_that_was_given_up() {
    let (mut table, id, _) = one_terminal(60, None);
    let ticket = release_cleanup(&mut table, &id);
    table.abandon(ticket);
    let mut ticket = kill_cleanup(&mut table, &id);
    table.note_kill_exit(&mut ticket, Some(killed()));
    ticket.reader = None;
    assert!(table.finish_kill(ticket).is_some());
    assert!(table.terminal_output(&id).is_err());
}

#[test]
fn an_owner_whose_terminal_is_gone_keeps_its_handles() {
    let (mut table, id, _) = one_terminal(60, None);
    let ticket = await_child(&mut table, &id);
    let gone = table.drain();
    assert_eq!(gone.len(), 1);
    assert_eq!(gone[0].child, None);
    assert_eq!(table.abandon(ticket), (Some("child"), Some("reader")));
}

#[test]
fn a_terminal_of_the_same_name_is_replaced() {
    let (mut table, id, old_cell) = one_terminal(60, None);
    table.append_output(old_cell, b"old");
    let new_cell = table.next_cell();
    let (same, replaced) = table.create_terminal("child2", Some(60), None, "reader2");
    assert_eq!(same, id);
    let replaced = replaced.unwrap();
    assert_eq!(replaced.child, Some("child"));
    assert_eq!(replaced.output, b"old");

    table.append_output(old_cell, b"lost");
    table.append_output(new_cell, b"new");
    assert_eq!(table.terminal_output(&id).unwrap().output, "new");
    let (unnumbered, _) = table.create_terminal("c", None, None, "r");
    assert_eq!(unnumbered, "term-0");
    assert!(table.has_cell(new_cell));
    assert!(!table.has_cell(table.next_cell()));
}

#[test]
fn all_terminals_are_handed_out_at_the_end() {
    let mut table = Table::new();
    for pid in [3, 1, 2] {
        table.create_terminal("child", Some(pid), None, "reader");
    }
    let mut pids: Vec<Option<u32>> = table.drain().iter().map(|state| state.pid).collect();
    pids.sort();
    assert_eq!(pids, vec![Some(1), Some(2), Some(3)]);
    assert!(table.drain().is_empty());
}

#[test]
fn what_is_published_can_be_read_after_the_end() {
    let (mut table, id, cell) = one_terminal(60, None);
    let ticket = await_child(&mut table, &id);
    finish_wait(&mut table, ticket, exited(3));
    let other_cell = table.next_cell();
    let (other, _) = table.create_terminal("child", Some(61), None, "reader");
    let owned = kill_cleanup(&mut table, &other);
    assert_eq!(table.drain().len(), 2);

    assert!(table.wait_for_terminal_exit(&id).is_err());
    assert_eq!(table.published_status(cell).unwrap().exit_code, Some(3));
    // An owner that is not done yet still publishes a status.
    let mut owned = owned;
    table.note_kill_exit(&mut owned, None);
    owned.reader = None;
    assert!(table.finish_kill(owned).is_none());
    assert!(table.published_status(other_cell).is_some());
}

#[test]
fn an_owner_goes_on_after_its_name_has_gone_to_another() {
    let (mut table, id, old_cell) = one_terminal(60, None);
    let ticket = await_child(&mut table, &id);
    let new_cell = table.next_cell();
    let (same, replaced) = table.create_terminal("child2", Some(60), None, "reader2");
    assert_eq!(same, id);
    assert!(replaced.is_some());

    finish_wait(&mut table, ticket, exited(4));
    assert_eq!(table.published_status(old_cell).unwrap().exit_code, Some(4));
    assert!(table.published_status(new_cell).is_none());
    assert_eq!(await_child(&mut table, &id).child, Some("child2"));
}

#[test]
fn one_who_waits_for_another_sleeps_once_and_asks_again() {
    let (mut table, id, _) = one_terminal(60, None);
    let ticket = await_child(&mut table, &id);
    let cell = waits_for(&mut table, &id);
    assert_eq!(RETRY_MILLIS, 25);
    assert!(matches!(table.await_existing(cell, false), AwaitStep::Sleep(25)));
    assert!(matches!(table.await_existing(cell, true), AwaitStep::AskAgain));

    // The status is learned also after the terminal has left the table.
    assert!(matches!(table.release_terminal(&id, false), Ok(ReleasePlan::Wait { .. })));
    finish_wait(&mut table, ticket, exited(5));
    assert!(table.wait_for_terminal_exit(&id).is_err());
    for slept in [false, true] {
        match table.await_existing(cell, slept) {
            AwaitStep::Done(status) => assert_eq!(status.exit_code, Some(5)),
            other => panic!("unexpected step: {other:?}"),
        }
    }
}

#[test]
fn under_the_largest_limit_nothing_is_truncated() {
    let (mut table, id, cell) = one_terminal(60, Some(u64::MAX));
    table.append_output(cell, "h\u{e9}".as_bytes());
    table.append_output(cell, b"llo");
    let answer = table.terminal_output(&id).unwrap();
    assert_eq!(answer.output, "h\u{e9}llo");
    assert!(!answer.truncated);
}

#[test]
fn what_happens_to_a_new_terminal_leaves_a_published_status() {
    let (mut table, id, cell) = one_terminal(60, None);
    let ticket = await_child(&mut table, &id);
    finish_wait(&mut table, ticket, exited(6));
    // A later terminal has the same name, and so has one more after it.
    let (_, replaced) = table.create_terminal("child2", Some(60), None, "reader2");
    assert!(replaced.is_some());
    let old_owner = await_child(&mut table, &id);
    table.create_terminal("child3", Some(60), None, "reader3");
    let new_owner = await_child(&mut table, &id);
    // The handles of the old owner go to a terminal that is being cleaned up.
    assert_eq!(table.abandon(old_owner), (None, None));
    finish_wait(&mut table, new_owner, exited(7));
    assert_eq!(table.published_status(cell).unwrap().exit_code, Some(6));
}
