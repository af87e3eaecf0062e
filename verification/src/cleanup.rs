//! The course of cleaning a terminal up, step by step.
//!
//! Three kinds of owners clean up: one who waits for the child, one who kills the
//! command and one who releases the terminal. Each ends the process group, waits for
//! the child, drains the reader and finishes, but the first does not touch the group
//! before the child has ended by itself.

use crate::acp_error::{wait_failed, AcpError};
use crate::exit_status::{status_view, TerminalExitStatus};
use crate::terminal::{PendingTerminalWait, TerminalState, Terminals};
use crate::terminal_model::{
    exit_noted, kill_finished, kill_noted, pid_cleared, release_finished, release_noted,
    wait_finished, TerminalsModel,
};
use vstd::prelude::*;

verus! {

/// Why a terminal is cleaned up.
#[derive(Clone, Copy, Debug, PartialEq, Eq, Structural)]
pub enum CleanupKind {
    Wait,
    Kill,
    Release,
}

impl CleanupKind {
    /// What waiting for the child has come to: how it ended, if that could be seen. Where
    /// waiting fails, one who asked to wait fails with the reason, and the others go on.
    pub fn child_waited(self, waited: Result<TerminalExitStatus, String>) -> (seen: Result<
        Option<TerminalExitStatus>,
        AcpError,
    >)
        ensures
            match seen {
                Err(error) => self is Wait && waited is Err && error@ == wait_failed(
                    waited->Err_0@,
                ),
                Ok(status) => match waited {
                    Ok(ended) => status_view(status) == Some(ended@),
                    Err(_) => status is None && !(self is Wait),
                },
            },
    {
        match waited {
            Ok(status) => Ok(Some(status)),
            Err(reason) => match self {
                CleanupKind::Wait => Err(AcpError::wait_failed(reason.as_str())),
                _ => Ok(None),
            },
        }
    }
}

/// What the owner of a terminal does next.
#[derive(Clone, Copy, Debug, PartialEq, Eq, Structural)]
pub enum CleanupStep {
    /// End the process group of the command.
    EndGroup { pid: Option<u32> },
    /// Wait for the child.
    AwaitChild,
    /// Let the reader take in what is left of the output.
    DrainReader,
    /// Publish what is known.
    Finish,
}

/// A cleaning up, as far as it has come.
#[derive(Debug)]
pub struct Cleanup<C, R> {
    pub kind: CleanupKind,
    pub ticket: PendingTerminalWait<C, R>,
    /// Whether the process group has been ended.
    pub group_ended: bool,
    /// How the child ended, where one who waits knows.
    pub status: Option<TerminalExitStatus>,
}

/// The step that is next.
pub open spec fn next_step<C, R>(cleanup: Cleanup<C, R>) -> CleanupStep {
    let child_first = cleanup.kind is Wait;
    if child_first && cleanup.ticket.child is Some {
        CleanupStep::AwaitChild
    } else if !cleanup.group_ended {
        CleanupStep::EndGroup { pid: cleanup.ticket.pid }
    } else if cleanup.ticket.child is Some {
        CleanupStep::AwaitChild
    } else if cleanup.ticket.reader is Some {
        CleanupStep::DrainReader
    } else {
        CleanupStep::Finish
    }
}

/// How many steps are left before the last one.
pub open spec fn steps_left<C, R>(cleanup: Cleanup<C, R>) -> nat {
    let group: nat = if cleanup.group_ended {
        0
    } else {
        1
    };
    let child: nat = if cleanup.ticket.child is Some {
        1
    } else {
        0
    };
    let reader: nat = if cleanup.ticket.reader is Some {
        1
    } else {
        0
    };
    group + child + reader
}

/// Whether one who waits, and holds no child, knows how it ended.
pub open spec fn informed<C, R>(cleanup: Cleanup<C, R>) -> bool {
    cleanup.kind is Wait && cleanup.ticket.child is None ==> cleanup.status is Some
}

/// The terminals after the child of a cleaning up has ended.
pub open spec fn child_noted<C, R>(
    m: TerminalsModel<C, R>,
    cleanup: Cleanup<C, R>,
    status: Option<TerminalExitStatus>,
) -> TerminalsModel<C, R> {
    let cell = cleanup.ticket.cell as int;
    match cleanup.kind {
        CleanupKind::Wait => exit_noted(m, cell, status->0@),
        CleanupKind::Kill => kill_noted(m, cell, status_view(status)),
        CleanupKind::Release => release_noted(m, cell, status_view(status)),
    }
}

/// The terminals after a cleaning up has finished.
pub open spec fn cleanup_finished<C, R>(
    m: TerminalsModel<C, R>,
    cleanup: Cleanup<C, R>,
) -> TerminalsModel<C, R> {
    let id = cleanup.ticket.terminal_id@;
    let cell = cleanup.ticket.cell as int;
    match cleanup.kind {
        CleanupKind::Wait => wait_finished(m, id, cell, cleanup.status->0@),
        CleanupKind::Kill => kill_finished(m, id, cell),
        CleanupKind::Release => release_finished(m, id, cell),
    }
}

impl<C, R> Cleanup<C, R> {
    /// One who waits for the child.
    pub fn waiting(ticket: PendingTerminalWait<C, R>) -> (cleanup: Cleanup<C, R>)
        ensures
            cleanup == (Cleanup {
                kind: CleanupKind::Wait,
                ticket,
                group_ended: false,
                status: None,
            }),
    {
        Cleanup { kind: CleanupKind::Wait, ticket, group_ended: false, status: None }
    }

    /// One who takes up the work of one who waited, after the child has ended.
    pub fn finalizing(ticket: PendingTerminalWait<C, R>, status: TerminalExitStatus) -> (cleanup:
        Cleanup<C, R>)
        ensures
            cleanup == (Cleanup {
                kind: CleanupKind::Wait,
                ticket,
                group_ended: false,
                status: Some(status),
            }),
    {
        Cleanup { kind: CleanupKind::Wait, ticket, group_ended: false, status: Some(status) }
    }

    /// One who kills the command.
    pub fn killing(ticket: PendingTerminalWait<C, R>) -> (cleanup: Cleanup<C, R>)
        ensures
            cleanup == (Cleanup {
                kind: CleanupKind::Kill,
                ticket,
                group_ended: false,
                status: None,
            }),
    {
        Cleanup { kind: CleanupKind::Kill, ticket, group_ended: false, status: None }
    }

    /// One who releases the terminal.
    pub fn releasing(ticket: PendingTerminalWait<C, R>) -> (cleanup: Cleanup<C, R>)
        ensures
            cleanup == (Cleanup {
                kind: CleanupKind::Release,
                ticket,
                group_ended: false,
                status: None,
            }),
    {
        Cleanup { kind: CleanupKind::Release, ticket, group_ended: false, status: None }
    }

    /// The step that is next.
    pub fn step(&self) -> (step: CleanupStep)
        ensures
            step == next_step(*self),
    {
        let child_held = self.ticket.child.is_some();
        let child_first = match self.kind {
            CleanupKind::Wait => true,
            _ => false,
        };
        if child_first && child_held {
            CleanupStep::AwaitChild
        } else if !self.group_ended {
            CleanupStep::EndGroup { pid: self.ticket.pid }
        } else if child_held {
            CleanupStep::AwaitChild
        } else if self.ticket.reader.is_some() {
            CleanupStep::DrainReader
        } else {
            CleanupStep::Finish
        }
    }
}

impl<C, R> Terminals<C, R> {
    /// The process group has been ended: its number is not used again.
    pub fn group_ended(&mut self, cleanup: &mut Cleanup<C, R>)
        ensures
            final(self)@ == pid_cleared(
                old(self)@,
                old(cleanup).ticket.terminal_id@,
                old(cleanup).ticket.pid,
            ),
            *final(cleanup) == (Cleanup { group_ended: true, ..*old(cleanup) }),
    {
        let pid = cleanup.ticket.pid;
        self.clear_terminal_pid_after_cleanup(cleanup.ticket.terminal_id.as_str(), pid);
        cleanup.group_ended = true;
    }

    /// The child has ended, or, where one does not wait for it, failed to say how. Its
    /// handle is given back.
    pub fn child_ended(
        &mut self,
        cleanup: &mut Cleanup<C, R>,
        status: Option<TerminalExitStatus>,
    ) -> (child: Option<C>)
        requires
            old(cleanup).ticket.cell < old(self)@.cells.len(),
            old(cleanup).kind is Wait ==> status is Some,
        ensures
            final(self)@ == child_noted(old(self)@, *old(cleanup), status),
            child == old(cleanup).ticket.child,
            final(cleanup).kind == old(cleanup).kind,
            final(cleanup).group_ended == old(cleanup).group_ended,
            final(cleanup).ticket == (PendingTerminalWait { child: None, ..old(cleanup).ticket }),
            status_view(final(cleanup).status) == if old(cleanup).kind is Wait {
                status_view(status)
            } else {
                status_view(old(cleanup).status)
            },
    {
        match cleanup.kind {
            CleanupKind::Wait => match status {
                Some(status) => {
                    cleanup.status = Some(status.clone());
                    self.note_exit(&mut cleanup.ticket, status)
                },
                None => None,
            },
            CleanupKind::Kill => self.note_kill_exit(&mut cleanup.ticket, status),
            CleanupKind::Release => self.note_release_exit(&mut cleanup.ticket, status),
        }
    }

    /// The last step. A terminal that leaves the table is given back, and the status
    /// that one who waited has waited for.
    pub fn finish_cleanup(&mut self, cleanup: Cleanup<C, R>) -> (finished: (
        Option<TerminalState<C, R>>,
        Option<TerminalExitStatus>,
    ))
        requires
            cleanup.ticket.cell < old(self)@.cells.len(),
            next_step(cleanup) is Finish,
            informed(cleanup),
        ensures
            final(self)@ == cleanup_finished(old(self)@, cleanup),
            match finished.0 {
                Some(state) => old(self)@.has(cleanup.ticket.terminal_id@) && state@
                    == old(self)@.table[cleanup.ticket.terminal_id@] && !final(self)@.has(
                    cleanup.ticket.terminal_id@,
                ),
                None => final(self)@.table == old(self)@.table,
            },
            status_view(finished.1) == if cleanup.kind is Wait {
                status_view(cleanup.status)
            } else {
                None
            },
    {
        match cleanup.kind {
            CleanupKind::Wait => match cleanup.status {
                Some(status) => {
                    let answer = status.clone();
                    let removed = self.finish_wait(cleanup.ticket, status);
                    proof {
                        lemma_nothing_removed(old(self)@, cleanup.ticket.terminal_id@);
                    }
                    (removed, Some(answer))
                },
                None => (None, None),
            },
            CleanupKind::Kill => {
                proof {
                    lemma_nothing_removed(self@, cleanup.ticket.terminal_id@);
                }
                (self.finish_kill(cleanup.ticket), None)
            },
            CleanupKind::Release => {
                proof {
                    lemma_nothing_removed(self@, cleanup.ticket.terminal_id@);
                }
                (self.finish_release(cleanup.ticket), None)
            },
        }
    }
}

proof fn lemma_nothing_removed<C, R>(m: TerminalsModel<C, R>, id: Seq<char>)
    ensures
        !m.has(id) ==> m.table.remove(id) == m.table,
{
    if !m.has(id) {
        assert(m.table.remove(id) =~= m.table);
    }
}

/// Each step that is taken brings the last one nearer, so that a cleaning up whose
/// steps end is finished after three of them at the most.
pub proof fn law_cleanup_comes_to_its_end<C, R>(cleanup: Cleanup<C, R>)
    ensures
        steps_left(cleanup) <= 3,
        steps_left(cleanup) == 0 <==> next_step(cleanup) is Finish,
        next_step(cleanup) is EndGroup ==> steps_left(
            Cleanup { group_ended: true, ..cleanup },
        ) < steps_left(cleanup),
        next_step(cleanup) is AwaitChild ==> steps_left(
            Cleanup {
                ticket: PendingTerminalWait { child: None, ..cleanup.ticket },
                ..cleanup
            },
        ) < steps_left(cleanup),
        next_step(cleanup) is DrainReader ==> steps_left(
            Cleanup {
                ticket: PendingTerminalWait { reader: None, ..cleanup.ticket },
                ..cleanup
            },
        ) < steps_left(cleanup),
{
}

/// The output is drained after the group has been ended and the child waited for, so
/// that nothing writes any more, and the status is published after that.
pub proof fn law_drain_comes_last<C, R>(cleanup: Cleanup<C, R>)
    ensures
        next_step(cleanup) is DrainReader || next_step(cleanup) is Finish ==> cleanup.group_ended
            && cleanup.ticket.child is None,
        next_step(cleanup) is Finish ==> cleanup.ticket.reader is None,
{
}

/// One who waits lets the command end by itself; one who kills or releases sends its
/// signals before it waits.
pub proof fn law_who_signals_first<C, R>(cleanup: Cleanup<C, R>)
    requires
        cleanup.ticket.child is Some,
        !cleanup.group_ended,
    ensures
        cleanup.kind is Wait <==> next_step(cleanup) is AwaitChild,
        !(cleanup.kind is Wait) <==> next_step(cleanup) is EndGroup,
{
}

} // verus!
