//! What each step in the life of a terminal promises by itself: who is answered what,
//! who gets the handles, and what stays as it was.

use crate::acp_error::{unknown_terminal, wait_failed, AcpErrorCode};
use crate::cleanup::{
    child_noted, cleanup_finished, next_step, Cleanup, CleanupKind, CleanupStep,
};
use crate::exit_status::{status_view, ExitView, TerminalExitStatus};
use crate::output::rendered;
use crate::terminal::{
    ticket_from, PendingTerminalWait, TerminalState, READER_DRAIN_MILLIS, RETRY_MILLIS,
};
use crate::terminal_laws::{
    cells_exist, law_published_status_is_final, law_status_stays_for_the_session, respects,
    session, session_respects, stepped, Step, TicketModel,
};
use crate::terminal_model::{
    abandoned, after_kill, after_release, after_wait, created, drained, exit_noted, in_memory,
    kill_decision, kill_finished, kill_noted, output_appended, pid_cleared, release_decision,
    release_finished, release_noted, shown_output, shown_truncated, takes_back, terminal_name,
    wait_decision, wait_finished, CellModel, EntryModel, TerminalsModel, WaitDecision,
};
use crate::text::{decimal, lossy_text};
use vstd::prelude::*;

verus! {

/// Whoever waits for a terminal whose status has been published is answered with that
/// very status, and with none before; whoever kills it is told that it is done. Nothing
/// changes on that.
pub proof fn law_published_status_is_the_answer<C, R>(
    m: TerminalsModel<C, R>,
    id: Seq<char>,
    status: ExitView,
)
    requires
        m.table.contains_key(id),
    ensures
        wait_decision(m, id) == WaitDecision::Done(
            status,
        ) <==> m.cells[m.table[id].cell].exit_status == Some(status),
        wait_decision(m, id) is Done <==> m.cells[m.table[id].cell].exit_status is Some,
        kill_decision(m, id) is Done <==> m.cells[m.table[id].cell].exit_status is Some,
        wait_decision(m, id) is Done ==> after_wait(m, id) == m && after_kill(m, id) == m,
{
}

/// The status that an owner who waited finishes with is the one that the next who waits
/// is answered with; where an owner who killed finishes, it is the one that was pending.
pub proof fn law_finished_status_is_the_answer<C, R>(
    m: TerminalsModel<C, R>,
    id: Seq<char>,
    status: ExitView,
)
    requires
        m.table.contains_key(id),
        0 <= m.table[id].cell < m.cells.len(),
        !m.cells[m.table[id].cell].release_requested,
    ensures
        wait_decision(wait_finished(m, id, m.table[id].cell, status), id) == WaitDecision::Done(
            status,
        ),
        m.cells[m.table[id].cell].pending_exit_status == Some(status) ==> wait_decision(
            kill_finished(m, id, m.table[id].cell),
            id,
        ) == WaitDecision::Done(status),
{
}

/// In every session, the status that an owner who waited finished with is the one that
/// anybody who waits for that terminal is answered with from then on.
pub proof fn law_finished_status_is_the_answer_for_the_session<C, R>(
    steps: Seq<Step<C, R>>,
    at: int,
    ticket: TicketModel<C, R>,
    status: ExitView,
)
    requires
        session_respects(steps, ticket.cell),
        0 <= at < steps.len(),
        steps[at] == (Step::<C, R>::FinishWait { ticket, status }),
        session(steps).table.contains_key(ticket.id),
        session(steps).table[ticket.id].cell == ticket.cell,
    ensures
        wait_decision(session(steps), ticket.id) == WaitDecision::Done(status),
{
    lemma_respects_prefix(steps, ticket.cell, at + 1);
    let upto = steps.take(at + 1);
    assert(upto.last() == steps[at]);
    law_status_stays_for_the_session(steps, at + 1, ticket.cell);
}

proof fn lemma_respects_prefix<C, R>(steps: Seq<Step<C, R>>, cell: int, n: int)
    requires
        session_respects(steps, cell),
        0 <= n <= steps.len(),
    ensures
        session_respects(steps.take(n), cell),
    decreases steps.len(),
{
    if n == steps.len() {
        assert(steps.take(n) =~= steps);
    } else {
        lemma_respects_prefix(steps.drop_last(), cell, n);
        assert(steps.drop_last().take(n) =~= steps.take(n));
    }
}

/// Nobody waits for, kills or releases a terminal that is not in the table.
pub proof fn law_missing_terminal_is_unknown<C, R>(m: TerminalsModel<C, R>, id: Seq<char>)
    ensures
        wait_decision(m, id) is Unknown <==> !m.table.contains_key(id),
        kill_decision(m, id) is Unknown <==> !m.table.contains_key(id),
        release_decision(m, id) is Missing <==> !m.table.contains_key(id),
        !m.table.contains_key(id) ==> after_wait(m, id) == m && after_kill(m, id) == m
            && after_release(m, id) == m,
{
}

/// One who waits for a terminal without a published status takes up a cleaning up that
/// was given up, with the status that is pending; waits for a child that is in the table
/// and has not ended; and in all other cases waits for another.
pub proof fn law_who_waits_for_what<C, R>(
    m: TerminalsModel<C, R>,
    id: Seq<char>,
    pending: ExitView,
)
    requires
        m.table.contains_key(id),
        m.cells[m.table[id].cell].exit_status is None,
    ensures
        ({
            let cell = m.cells[m.table[id].cell];
            &&& wait_decision(m, id) == WaitDecision::Finalize(pending)
                <==> cell.pending_exit_status == Some(pending) && !cell.cleanup_in_progress
            &&& wait_decision(m, id) is AwaitChild <==> cell.pending_exit_status is None
                && m.table[id].child is Some
            &&& wait_decision(m, id) is AwaitExisting <==> (cell.pending_exit_status is Some
                && cell.cleanup_in_progress) || (cell.pending_exit_status is None
                && m.table[id].child is None)
        }),
{
}

/// One who kills a terminal without a published status cleans it up exactly if nobody
/// does and there is something to clean up, and else only sends signals.
pub proof fn law_who_kills_cleans_up<C, R>(m: TerminalsModel<C, R>, id: Seq<char>)
    requires
        m.table.contains_key(id),
        m.cells[m.table[id].cell].exit_status is None,
    ensures
        ({
            let cell = m.cells[m.table[id].cell];
            let idle = !cell.cleanup_in_progress && (cell.pending_exit_status is Some
                || m.table[id].child is Some);
            &&& kill_decision(m, id) is Cleanup <==> idle
            &&& kill_decision(m, id) is SignalOnly <==> !idle
        }),
{
}

/// One who releases a terminal waits while another cleans it up; else cleans up where a
/// handle is left; and else has it removed if its end is known.
pub proof fn law_who_releases_does_what<C, R>(m: TerminalsModel<C, R>, id: Seq<char>)
    requires
        m.table.contains_key(id),
    ensures
        ({
            let cell = m.cells[m.table[id].cell];
            let held = m.table[id].child is Some || m.table[id].reader is Some;
            let known = cell.exit_status is Some || cell.pending_exit_status is Some;
            &&& release_decision(m, id) is Cleanup <==> !cell.cleanup_in_progress && held
            &&& release_decision(m, id) is Remove <==> !cell.cleanup_in_progress && !held && known
            &&& release_decision(m, id) is Wait <==> cell.cleanup_in_progress || (!held && !known)
        }),
{
}

/// Asking for a terminal leaves all others alone, with what is shared of them, and what
/// the terminal has put out, its number, and what is known of its end.
pub proof fn law_asking_touches_one_terminal<C, R>(
    m: TerminalsModel<C, R>,
    id: Seq<char>,
    after: TerminalsModel<C, R>,
    other: Seq<char>,
    cell: int,
)
    requires
        m.table.contains_key(id) ==> 0 <= m.table[id].cell < m.cells.len(),
        after == after_wait(m, id) || after == after_kill(m, id) || after == after_release(m, id),
    ensures
        after.cells.len() == m.cells.len(),
        other != id ==> after.table.contains_key(other) == m.table.contains_key(other),
        other != id && m.table.contains_key(other) ==> after.table[other] == m.table[other],
        0 <= cell < m.cells.len() && !(m.table.contains_key(id) && m.table[id].cell == cell)
            ==> after.cells[cell] == m.cells[cell],
        0 <= cell < m.cells.len() ==> after.cells[cell].exit_status == m.cells[cell].exit_status
            && after.cells[cell].pending_exit_status == m.cells[cell].pending_exit_status,
        after.table.contains_key(id) ==> m.table.contains_key(id) && after.table[id].output
            == m.table[id].output && after.table[id].output_truncated
            == m.table[id].output_truncated && after.table[id].output_byte_limit
            == m.table[id].output_byte_limit && after.table[id].pid == m.table[id].pid
            && after.table[id].cell == m.table[id].cell,
{
}

/// Who is to clean up gets the handles out of the table, and the terminal is marked;
/// nobody else moves a handle or a mark. Only a release asks for the terminal to leave,
/// and it leaves at once only where nothing is left to clean up.
pub proof fn law_handles_go_to_the_owner<C, R>(m: TerminalsModel<C, R>, id: Seq<char>)
    requires
        m.table.contains_key(id),
        0 <= m.table[id].cell < m.cells.len(),
    ensures
        ({
            let c = m.table[id].cell;
            let w = after_wait(m, id);
            let k = after_kill(m, id);
            let r = after_release(m, id);
            let all = wait_decision(m, id) is AwaitChild;
            let rest = wait_decision(m, id) is Finalize;
            &&& w.table.contains_key(id) && k.table.contains_key(id)
            &&& all ==> w.table[id].child is None
            &&& !all ==> w.table[id].child == m.table[id].child
            &&& all || rest ==> w.table[id].reader is None && w.cells[c].cleanup_in_progress
            &&& !all && !rest ==> w == m
            &&& w.cells[c].release_requested == m.cells[c].release_requested
            &&& kill_decision(m, id) is Cleanup ==> k.table[id].child is None && k.table[id].reader
                is None && k.cells[c].cleanup_in_progress
            &&& !(kill_decision(m, id) is Cleanup) ==> k == m
            &&& k.cells[c].release_requested == m.cells[c].release_requested
            &&& r.cells[c].release_requested
            &&& r.table.contains_key(id) <==> !(release_decision(m, id) is Remove)
            &&& release_decision(m, id) is Cleanup ==> r.table[id].child is None
                && r.table[id].reader is None && r.cells[c].cleanup_in_progress
            &&& release_decision(m, id) is Wait ==> r.table[id] == m.table[id]
            &&& !(release_decision(m, id) is Cleanup) ==> r.cells[c].cleanup_in_progress
                == m.cells[c].cleanup_in_progress
        }),
{
}

/// An owner holds what the table had: the reader, the number, the shared part, and the
/// child where it is to wait for it.
pub proof fn law_owner_holds_what_the_table_had<C, R>(
    ticket: PendingTerminalWait<C, R>,
    m: TerminalsModel<C, R>,
    id: Seq<char>,
    child_too: bool,
)
    ensures
        ticket_from(ticket, m, id, child_too) <==> {
            &&& ticket.terminal_id@ == id
            &&& child_too ==> ticket.child == m.table[id].child
            &&& !child_too ==> ticket.child is None
            &&& ticket.reader == m.table[id].reader
            &&& ticket.cell == m.table[id].cell
            &&& ticket.pid == m.table[id].pid
        },
{
}

/// What an owner has seen of the child's end becomes pending, and nothing else changes:
/// one who waited always saw it; one who killed notes at least that it ended, unless
/// more is known; one who releases notes only what it saw.
pub proof fn law_noting_makes_the_end_pending<C, R>(
    m: TerminalsModel<C, R>,
    cell: int,
    seen: ExitView,
    other: int,
)
    requires
        0 <= cell < m.cells.len(),
    ensures
        exit_noted(m, cell, seen).table == m.table,
        kill_noted(m, cell, Some(seen)).table == m.table,
        kill_noted(m, cell, None).table == m.table,
        release_noted(m, cell, Some(seen)).table == m.table,
        exit_noted(m, cell, seen).cells[cell] == (CellModel {
            exit_status: m.cells[cell].exit_status,
            pending_exit_status: Some(seen),
            cleanup_in_progress: true,
            release_requested: m.cells[cell].release_requested,
        }),
        kill_noted(m, cell, Some(seen)).cells[cell] == (CellModel {
            exit_status: m.cells[cell].exit_status,
            pending_exit_status: Some(seen),
            cleanup_in_progress: m.cells[cell].cleanup_in_progress,
            release_requested: m.cells[cell].release_requested,
        }),
        release_noted(m, cell, Some(seen)).cells[cell] == kill_noted(
            m,
            cell,
            Some(seen),
        ).cells[cell],
        release_noted(m, cell, None) == m,
        m.cells[cell].pending_exit_status is Some || m.cells[cell].exit_status is Some
            ==> kill_noted(m, cell, None) == m,
        m.cells[cell].pending_exit_status is None && m.cells[cell].exit_status is None
            ==> kill_noted(m, cell, None) == kill_noted(
            m,
            cell,
            Some(ExitView { exit_code: None, signal: None }),
        ),
        0 <= other < m.cells.len() && other != cell ==> exit_noted(m, cell, seen).cells[other]
            == m.cells[other] && kill_noted(m, cell, Some(seen)).cells[other] == m.cells[other]
            && release_noted(m, cell, Some(seen)).cells[other] == m.cells[other],
{
    assert(release_noted(m, cell, None).cells =~= m.cells);
    assert(m.cells[cell].pending_exit_status is Some || m.cells[cell].exit_status is Some
        ==> kill_noted(m, cell, None).cells =~= m.cells);
}

/// The last step of a cleaning up publishes the end, takes off the mark, and leaves
/// nothing pending. It touches no other terminal, and takes the terminal out of the
/// table exactly if that was asked for, or if it is a release.
pub proof fn law_finishing_publishes_the_end<C, R>(
    m: TerminalsModel<C, R>,
    id: Seq<char>,
    cell: int,
    status: ExitView,
    other: int,
)
    requires
        0 <= cell < m.cells.len(),
    ensures
        ({
            let w = wait_finished(m, id, cell, status);
            let k = kill_finished(m, id, cell);
            let r = release_finished(m, id, cell);
            let asked = m.cells[cell].release_requested;
            &&& w.cells[cell] == (CellModel {
                exit_status: Some(status),
                pending_exit_status: None,
                cleanup_in_progress: false,
                release_requested: asked,
            })
            &&& m.cells[cell].pending_exit_status == Some(status) ==> k.cells[cell]
                == w.cells[cell] && r.cells[cell] == w.cells[cell]
            &&& m.cells[cell].pending_exit_status is None ==> k.cells[cell] == (CellModel {
                exit_status: m.cells[cell].exit_status,
                pending_exit_status: None,
                cleanup_in_progress: false,
                release_requested: asked,
            }) && r.cells[cell] == k.cells[cell]
            &&& asked ==> w.table == m.table.remove(id) && k.table == m.table.remove(id)
            &&& !asked ==> w.table == m.table && k.table == m.table
            &&& r.table == m.table.remove(id)
            &&& 0 <= other < m.cells.len() && other != cell ==> w.cells[other] == m.cells[other]
                && k.cells[other] == m.cells[other] && r.cells[other] == m.cells[other]
            &&& w.cells.len() == m.cells.len() && k.cells.len() == m.cells.len() && r.cells.len()
                == m.cells.len()
        }),
{
}

/// An owner that gives up hands back the child and the reader where the terminal is
/// still in the table, its end has not been published and the table has none, and takes
/// its mark off. Else nothing changes.
pub proof fn law_giving_up_hands_back<C, R>(
    m: TerminalsModel<C, R>,
    id: Seq<char>,
    cell: int,
    child: Option<C>,
    reader: Option<R>,
    other: Seq<char>,
    other_cell: int,
)
    requires
        0 <= cell < m.cells.len(),
    ensures
        ({
            let after = abandoned(m, id, cell, child, reader);
            let back = m.table.contains_key(id) && m.cells[m.table[id].cell].exit_status is None;
            &&& takes_back(m, id) == back
            &&& !back ==> after == m
            &&& back ==> after.table[id] == (EntryModel {
                child: if m.table[id].child is Some {
                    m.table[id].child
                } else {
                    child
                },
                reader: if m.table[id].reader is Some {
                    m.table[id].reader
                } else {
                    reader
                },
                ..m.table[id]
            })
            &&& back ==> after.cells[cell] == (CellModel {
                cleanup_in_progress: false,
                ..m.cells[cell]
            })
            &&& after.table.contains_key(other) == m.table.contains_key(other)
            &&& other != id && m.table.contains_key(other) ==> after.table[other]
                == m.table[other]
            &&& 0 <= other_cell < m.cells.len() && other_cell != cell ==> after.cells[other_cell]
                == m.cells[other_cell]
        }),
{
}

/// The number of a process is cleared exactly where the terminal has that very number;
/// nothing else changes.
pub proof fn law_clearing_takes_the_number_only<C, R>(
    m: TerminalsModel<C, R>,
    id: Seq<char>,
    pid: Option<u32>,
    other: Seq<char>,
)
    ensures
        ({
            let after = pid_cleared(m, id, pid);
            &&& after.cells == m.cells
            &&& after.table.contains_key(other) == m.table.contains_key(other)
            &&& other != id && m.table.contains_key(other) ==> after.table[other]
                == m.table[other]
            &&& m.table.contains_key(id) && (pid is None || m.table[id].pid != pid)
                ==> after.table[id] == m.table[id]
            &&& m.table.contains_key(id) && pid is Some && m.table[id].pid == pid
                ==> after.table[id] == (EntryModel { pid: None, ..m.table[id] })
        }),
{
}

/// A new terminal is named by its process, holds both handles and the limit that it was
/// given, has put out nothing, and shares nothing with any other. All others stay, but
/// for one of the same name.
pub proof fn law_new_terminal_starts_fresh<C, R>(
    m: TerminalsModel<C, R>,
    child: C,
    pid: Option<u32>,
    limit: Option<u64>,
    reader: R,
    other: Seq<char>,
    cell: int,
)
    ensures
        ({
            let after = created(m, child, pid, limit, reader);
            let id = "term-"@ + decimal(
                match pid {
                    Some(number) => number as nat,
                    None => 0,
                },
            );
            &&& terminal_name(pid) == id
            &&& after.table.contains_key(id)
            &&& after.table[id].child == Some(child)
            &&& after.table[id].reader == Some(reader)
            &&& after.table[id].pid == pid
            &&& after.table[id].output_byte_limit == limit
            &&& after.table[id].output.len() == 0
            &&& !after.table[id].output_truncated
            &&& after.table[id].cell == m.cells.len()
            &&& after.cells.len() == m.cells.len() + 1
            &&& after.cells[m.cells.len() as int] == (CellModel {
                exit_status: None,
                pending_exit_status: None,
                cleanup_in_progress: false,
                release_requested: false,
            })
            &&& other != id ==> after.table.contains_key(other) == m.table.contains_key(other)
            &&& other != id && m.table.contains_key(other) ==> after.table[other]
                == m.table[other]
            &&& 0 <= cell < m.cells.len() ==> after.cells[cell] == m.cells[cell]
            &&& wait_decision(after, id) is AwaitChild
        }),
{
}

/// Output that is captured goes to the terminal that it came from, and to no other. Of
/// that terminal nothing else changes; without a limit it is added at the end.
pub proof fn law_output_goes_where_it_came_from<C, R>(
    m: TerminalsModel<C, R>,
    cell: int,
    chunk: Seq<u8>,
    id: Seq<char>,
)
    ensures
        ({
            let after = output_appended(m, cell, chunk);
            let entry = m.table[id];
            &&& after.cells == m.cells
            &&& after.table.contains_key(id) == m.table.contains_key(id)
            &&& m.table.contains_key(id) && entry.cell != cell ==> after.table[id] == entry
            &&& m.table.contains_key(id) ==> after.table[id].child == entry.child
                && after.table[id].reader == entry.reader && after.table[id].pid == entry.pid
                && after.table[id].cell == entry.cell && after.table[id].output_byte_limit
                == entry.output_byte_limit
            &&& m.table.contains_key(id) && entry.cell == cell && entry.output_byte_limit is None
                ==> after.table[id].output == entry.output + chunk
                && after.table[id].output_truncated == entry.output_truncated
        }),
{
}

/// What is shown of a terminal without a limit is all that it holds, and under a limit
/// the end that fits; it is shown as truncated if something is missing.
pub proof fn law_shown_output_is_the_terminals<C, R>(entry: EntryModel<C, R>, max: u64)
    ensures
        entry.output_byte_limit is None ==> shown_output(entry) == lossy_text(entry.output)
            && shown_truncated(entry) == entry.output_truncated,
        entry.output_byte_limit == Some(max) ==> shown_truncated(entry) == (entry.output_truncated
            || entry.output.len() > max),
        entry.output_byte_limit == Some(max) && max <= usize::MAX ==> shown_output(entry)
            == rendered(entry.output, max as int),
        max <= usize::MAX ==> in_memory(max) == max,
        max > usize::MAX ==> in_memory(max) == usize::MAX,
{
}

/// At the end of a session every terminal leaves the table, and nothing that is shared
/// changes.
pub proof fn law_draining_empties_the_table<C, R>(m: TerminalsModel<C, R>, id: Seq<char>)
    ensures
        !drained(m).table.contains_key(id),
        drained(m).cells == m.cells,
{
}

/// One who cleans up ends the process group of its own terminal, and no other.
pub proof fn law_owner_ends_its_own_group<C, R>(cleanup: Cleanup<C, R>)
    ensures
        next_step(cleanup) is EndGroup ==> next_step(cleanup) == (CleanupStep::EndGroup {
            pid: cleanup.ticket.pid,
        }) && !cleanup.group_ended,
        next_step(cleanup) is AwaitChild ==> cleanup.ticket.child is Some,
        next_step(cleanup) is DrainReader ==> cleanup.ticket.reader is Some,
        next_step(cleanup) is Finish <==> cleanup.group_ended && cleanup.ticket.child is None
            && cleanup.ticket.reader is None,
{
}

/// Every kind of cleaning up that sees the child end with a status publishes that very
/// status, and takes its mark off.
pub proof fn law_cleanup_publishes_what_it_saw<C, R>(
    m: TerminalsModel<C, R>,
    cleanup: Cleanup<C, R>,
    status: TerminalExitStatus,
    finished: Cleanup<C, R>,
)
    requires
        0 <= cleanup.ticket.cell < m.cells.len(),
        finished.kind == cleanup.kind,
        finished.ticket.cell == cleanup.ticket.cell,
        finished.kind == CleanupKind::Wait ==> status_view(finished.status) == Some(status@),
    ensures
        ({
            let noted = child_noted(m, cleanup, Some(status));
            let done = cleanup_finished(noted, finished);
            let c = cleanup.ticket.cell as int;
            &&& noted.table == m.table
            &&& noted.cells[c].pending_exit_status == Some(status@)
            &&& noted.cells[c].exit_status == m.cells[c].exit_status
            &&& done.cells[c].exit_status == Some(status@)
            &&& done.cells[c].pending_exit_status is None
            &&& !done.cells[c].cleanup_in_progress
            &&& done.cells[c].release_requested == m.cells[c].release_requested
            &&& finished.kind == CleanupKind::Release || m.cells[c].release_requested
                ==> done.table == m.table.remove(finished.ticket.terminal_id@)
            &&& finished.kind != CleanupKind::Release && !m.cells[c].release_requested
                ==> done.table == m.table
        }),
{
}

/// One who kills, and cannot see how the child ended, publishes that it ended; one who
/// releases then publishes nothing.
pub proof fn law_unseen_end<C, R>(m: TerminalsModel<C, R>, cleanup: Cleanup<C, R>)
    requires
        0 <= cleanup.ticket.cell < m.cells.len(),
        m.cells[cleanup.ticket.cell as int].exit_status is None,
        m.cells[cleanup.ticket.cell as int].pending_exit_status is None,
    ensures
        cleanup.kind == CleanupKind::Kill ==> cleanup_finished(
            child_noted(m, cleanup, None),
            cleanup,
        ).cells[cleanup.ticket.cell as int].exit_status == Some(
            ExitView { exit_code: None, signal: None },
        ),
        cleanup.kind == CleanupKind::Release ==> cleanup_finished(
            child_noted(m, cleanup, None),
            cleanup,
        ).cells[cleanup.ticket.cell as int].exit_status is None,
{
}

/// A request for a terminal that is unknown is the asker's fault, and is told which; a
/// wait that fails is not, and is told why.
pub proof fn law_terminal_errors_say_what_and_why(id: Seq<char>, reason: Seq<char>)
    ensures
        unknown_terminal(id).code == AcpErrorCode::InvalidParams,
        unknown_terminal(id).message == "unknown terminal: "@ + id,
        wait_failed(reason).code == AcpErrorCode::InternalError,
        wait_failed(reason).message == "wait failed: "@ + reason,
{
}

/// What is read of a terminal in the table is what it holds.
pub proof fn law_entry_holds_what_the_terminal_holds<C, R>(state: TerminalState<C, R>)
    ensures
        state@.child == state.child,
        state@.reader == state.reader,
        state@.pid == state.pid,
        state@.output == state.output@,
        state@.output_truncated == state.output_truncated,
        state@.output_byte_limit == state.output_byte_limit,
        state@.cell == state.cell,
        READER_DRAIN_MILLIS == 250,
        RETRY_MILLIS == 25,
{
}

/// A published status stays what it is while another terminal, or another owner's
/// ticket, is dealt with.
pub proof fn law_published_status_survives_a_step<C, R>(
    m: TerminalsModel<C, R>,
    step: Step<C, R>,
    id: Seq<char>,
    status: ExitView,
)
    requires
        cells_exist(m),
        m.table.contains_key(id),
        respects(m, step, m.table[id].cell),
        wait_decision(m, id) == WaitDecision::Done(status),
        stepped(m, step).table.contains_key(id),
        stepped(m, step).table[id].cell == m.table[id].cell,
    ensures
        wait_decision(stepped(m, step), id) == WaitDecision::Done(status),
{
    assert(m.has(id));
    law_published_status_is_final(m, step, m.table[id].cell);
}

} // verus!
