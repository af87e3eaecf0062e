//! What holds of the terminals of a session whatever happens in it, in whatever
//! order.

use crate::exit_status::ExitView;
use crate::output::{
    dropped, law_rendered_fits, law_retained_in_steps, law_retained_shows_as_stream,
    law_truncation_reported, rendered, retained,
};
use crate::terminal_model::{
    abandoned, after_kill, after_release, after_wait, created, drained, entry_appended,
    exit_noted, in_memory, kill_decision, kill_finished, kill_noted, output_appended, pid_cleared,
    release_decision, release_finished, release_marked, release_noted, shown_output,
    shown_truncated, takes_back, terminal_name, wait_decision, wait_finished, EntryModel,
    TerminalsModel, WaitDecision,
};
use crate::text::lossy_text;
use vstd::prelude::*;
use vstd::utf8::encode_utf8;

verus! {

/// The handles of a terminal in the hands of an owner.
pub struct TicketModel<C, R> {
    pub id: Seq<char>,
    pub cell: int,
    pub child: Option<C>,
    pub reader: Option<R>,
}

/// One step of a session.
pub enum Step<C, R> {
    Create { child: C, pid: Option<u32>, limit: Option<u64>, reader: R },
    Append { cell: int, chunk: Seq<u8> },
    AskWait { id: Seq<char> },
    AskKill { id: Seq<char> },
    AskRelease { id: Seq<char> },
    ClearPid { id: Seq<char>, pid: Option<u32> },
    NoteExit { ticket: TicketModel<C, R>, status: ExitView },
    NoteKillExit { ticket: TicketModel<C, R>, seen: Option<ExitView> },
    NoteReleaseExit { ticket: TicketModel<C, R>, seen: Option<ExitView> },
    FinishWait { ticket: TicketModel<C, R>, status: ExitView },
    FinishKill { ticket: TicketModel<C, R> },
    FinishRelease { ticket: TicketModel<C, R> },
    Abandon { ticket: TicketModel<C, R> },
    Drain,
}

/// The ticket that a step is taken with.
pub open spec fn ticket_of<C, R>(step: Step<C, R>) -> Option<TicketModel<C, R>> {
    match step {
        Step::NoteExit { ticket, .. } => Some(ticket),
        Step::NoteKillExit { ticket, .. } => Some(ticket),
        Step::NoteReleaseExit { ticket, .. } => Some(ticket),
        Step::FinishWait { ticket, .. } => Some(ticket),
        Step::FinishKill { ticket } => Some(ticket),
        Step::FinishRelease { ticket } => Some(ticket),
        Step::Abandon { ticket } => Some(ticket),
        _ => None,
    }
}

/// Whether a step is the last one of a cleaning up.
pub open spec fn finishes<C, R>(step: Step<C, R>) -> bool {
    step is FinishWait || step is FinishKill || step is FinishRelease
}

/// The terminals after a step.
pub open spec fn stepped<C, R>(
    m: TerminalsModel<C, R>,
    step: Step<C, R>,
) -> TerminalsModel<C, R> {
    match step {
        Step::Create { child, pid, limit, reader } => created(m, child, pid, limit, reader),
        Step::Append { cell, chunk } => output_appended(m, cell, chunk),
        Step::AskWait { id } => after_wait(m, id),
        Step::AskKill { id } => after_kill(m, id),
        Step::AskRelease { id } => after_release(m, id),
        Step::ClearPid { id, pid } => pid_cleared(m, id, pid),
        Step::NoteExit { ticket, status } => exit_noted(m, ticket.cell, status),
        Step::NoteKillExit { ticket, seen } => kill_noted(m, ticket.cell, seen),
        Step::NoteReleaseExit { ticket, seen } => release_noted(m, ticket.cell, seen),
        Step::FinishWait { ticket, status } => wait_finished(m, ticket.id, ticket.cell, status),
        Step::FinishKill { ticket } => kill_finished(m, ticket.id, ticket.cell),
        Step::FinishRelease { ticket } => release_finished(m, ticket.id, ticket.cell),
        Step::Abandon { ticket } => abandoned(
            m,
            ticket.id,
            ticket.cell,
            ticket.child,
            ticket.reader,
        ),
        Step::Drain => drained(m),
    }
}

/// Whether a terminal is in order: while it is cleaned up the table has none of its
/// handles, a child that has ended is not in the table, and with a published status
/// nothing is left to do.
pub open spec fn entry_in_order<C, R>(m: TerminalsModel<C, R>, id: Seq<char>) -> bool {
    &&& 0 <= m.table[id].cell < m.cells.len()
    &&& m.cell(id).cleanup_in_progress ==> m.table[id].child is None && m.table[id].reader is None
    &&& m.cell(id).pending_exit_status is Some ==> m.table[id].child is None
    &&& m.cell(id).exit_status is Some ==> m.table[id].child is None && m.table[id].reader is None
        && !m.cell(id).cleanup_in_progress && m.cell(id).pending_exit_status is None
}

/// Whether all terminals are in order and no two share anything.
pub open spec fn in_order<C, R>(m: TerminalsModel<C, R>) -> bool {
    &&& forall|id: Seq<char>| #[trigger] m.has(id) ==> entry_in_order(m, id)
    &&& forall|a: Seq<char>, b: Seq<char>|
        #[trigger] m.has(a) && #[trigger] m.has(b) && a != b ==> m.table[a].cell
            != m.table[b].cell
}

/// Whether a ticket is that of the owner of a terminal. The terminal need not be in
/// the table any more, and its name may have gone to a new one.
pub open spec fn owns<C, R>(m: TerminalsModel<C, R>, ticket: TicketModel<C, R>) -> bool {
    &&& 0 <= ticket.cell < m.cells.len()
    &&& m.cells[ticket.cell].cleanup_in_progress
    &&& m.cells[ticket.cell].exit_status is None
    &&& ticket.child is Some ==> m.cells[ticket.cell].pending_exit_status is None
    &&& forall|id: Seq<char>| #[trigger]
        m.has(id) && m.table[id].cell == ticket.cell ==> id == ticket.id
}

/// Whether a ticket is that of the owner of the terminal that has its name.
pub open spec fn owns_named<C, R>(m: TerminalsModel<C, R>, ticket: TicketModel<C, R>) -> bool {
    owns(m, ticket) && m.has(ticket.id) && m.table[ticket.id].cell == ticket.cell
}

/// Whether an owner that gives up hands its handles to a new terminal of the same name
/// that has none only because it is itself being cleaned up, or because its own child
/// has ended.
pub open spec fn misdelivers<C, R>(m: TerminalsModel<C, R>, ticket: TicketModel<C, R>) -> bool {
    &&& takes_back(m, ticket.id)
    &&& m.table[ticket.id].cell != ticket.cell
    &&& {
        ||| ticket.child is Some && m.table[ticket.id].child is None && (m.cell(
            ticket.id,
        ).cleanup_in_progress || m.cell(ticket.id).pending_exit_status is Some)
        ||| ticket.reader is Some && m.table[ticket.id].reader is None && m.cell(
            ticket.id,
        ).cleanup_in_progress
    }
}

/// Whether a step can happen: only an owner acts with a ticket, and it finishes only
/// when the child has been waited for and the reader has been drained. That an owner
/// gives up when its handles would go astray is left out.
pub open spec fn possible<C, R>(m: TerminalsModel<C, R>, step: Step<C, R>) -> bool {
    &&& ticket_of(step) matches Some(ticket) ==> owns(m, ticket)
    &&& finishes(step) ==> ticket_of(step)->0.child is None && ticket_of(step)->0.reader is None
    &&& step matches Step::Abandon { ticket } ==> !misdelivers(m, ticket)
}

/// The terminal that a step asks for.
pub open spec fn asked_for<C, R>(step: Step<C, R>) -> Option<Seq<char>> {
    match step {
        Step::AskWait { id } => Some(id),
        Step::AskKill { id } => Some(id),
        Step::AskRelease { id } => Some(id),
        _ => None,
    }
}

proof fn lemma_asked_in_order<C, R>(m: TerminalsModel<C, R>, step: Step<C, R>)
    requires
        in_order(m),
    ensures
        asked_for(step) matches Some(id) ==> m.has(id) ==> entry_in_order(m, id),
{
    if let Some(id) = asked_for(step) {
        if m.has(id) {
            assert(entry_in_order(m, id));
        }
    }
}

/// Every step leaves the terminals in order.
pub proof fn law_steps_keep_order<C, R>(m: TerminalsModel<C, R>, step: Step<C, R>)
    requires
        in_order(m),
        possible(m, step),
    ensures
        in_order(stepped(m, step)),
{
    let after = stepped(m, step);
    assert forall|id: Seq<char>| #[trigger] after.has(id) implies entry_in_order(after, id) by {
        if m.has(id) {
            assert(entry_in_order(m, id));
        }
        if let Some(ticket) = ticket_of(step) {
            if m.has(ticket.id) {
                assert(entry_in_order(m, ticket.id));
            }
        }
    }
    assert forall|a: Seq<char>, b: Seq<char>|
        #[trigger] after.has(a) && #[trigger] after.has(b) && a != b implies after.table[a].cell
        != after.table[b].cell by {
        if m.has(a) {
            assert(entry_in_order(m, a));
        }
        if m.has(b) {
            assert(entry_in_order(m, b));
        }
    }
}

/// The terminals after a number of steps, from none at all.
pub open spec fn session<C, R>(steps: Seq<Step<C, R>>) -> TerminalsModel<C, R>
    decreases steps.len(),
{
    if steps.len() == 0 {
        TerminalsModel { table: Map::empty(), cells: Seq::empty() }
    } else {
        stepped(session(steps.drop_last()), steps.last())
    }
}

/// Whether each of a number of steps can happen after those before it.
pub open spec fn session_possible<C, R>(steps: Seq<Step<C, R>>) -> bool
    decreases steps.len(),
{
    steps.len() > 0 ==> session_possible(steps.drop_last()) && possible(
        session(steps.drop_last()),
        steps.last(),
    )
}

/// In every session all terminals are in order at all times.
pub proof fn law_sessions_are_in_order<C, R>(steps: Seq<Step<C, R>>)
    requires
        session_possible(steps),
    ensures
        in_order(session(steps)),
    decreases steps.len(),
{
    if steps.len() > 0 {
        law_sessions_are_in_order(steps.drop_last());
        law_steps_keep_order(session(steps.drop_last()), steps.last());
    }
}

/// Whether the shared part of each terminal in the table exists.
pub open spec fn cells_exist<C, R>(m: TerminalsModel<C, R>) -> bool {
    forall|id: Seq<char>| #[trigger] m.has(id) ==> 0 <= m.table[id].cell < m.cells.len()
}

/// Whether a step treats one shared part as its owner may, and acts on none that does
/// not exist. What it does to others, and where handles go, is left open.
pub open spec fn respects<C, R>(m: TerminalsModel<C, R>, step: Step<C, R>, cell: int) -> bool {
    ticket_of(step) matches Some(ticket) ==> {
        &&& 0 <= ticket.cell < m.cells.len()
        &&& ticket.cell == cell ==> owns(m, ticket)
    }
}

/// Whether each of a number of steps treats one shared part as its owner may.
pub open spec fn session_respects<C, R>(steps: Seq<Step<C, R>>, cell: int) -> bool
    decreases steps.len(),
{
    steps.len() > 0 ==> session_respects(steps.drop_last(), cell) && respects(
        session(steps.drop_last()),
        steps.last(),
        cell,
    )
}

/// In a session in which every step can happen, every shared part is treated as its
/// owner may.
pub proof fn law_possible_sessions_respect_owners<C, R>(steps: Seq<Step<C, R>>, cell: int)
    requires
        session_possible(steps),
    ensures
        session_respects(steps, cell),
    decreases steps.len(),
{
    if steps.len() > 0 {
        law_possible_sessions_respect_owners(steps.drop_last(), cell);
    }
}

/// The shared parts stay, whatever becomes of the terminals.
pub proof fn law_cells_stay<C, R>(m: TerminalsModel<C, R>, step: Step<C, R>, cell: int)
    requires
        cells_exist(m),
        respects(m, step, cell),
    ensures
        cells_exist(stepped(m, step)),
        m.cells.len() <= stepped(m, step).cells.len(),
{
    let after = stepped(m, step);
    lemma_asked_exists(m, step);
    if let Some(ticket) = ticket_of(step) {
        if m.has(ticket.id) {
            assert(0 <= m.table[ticket.id].cell < m.cells.len());
        }
    }
    assert forall|id: Seq<char>| #[trigger] after.has(id) implies 0 <= after.table[id].cell
        < after.cells.len() by {
        if m.has(id) {
            assert(0 <= m.table[id].cell < m.cells.len());
        }
    }
}

proof fn lemma_asked_exists<C, R>(m: TerminalsModel<C, R>, step: Step<C, R>)
    requires
        cells_exist(m),
    ensures
        asked_for(step) matches Some(id) ==> m.has(id) ==> 0 <= m.table[id].cell < m.cells.len(),
{
    if let Some(id) = asked_for(step) {
        if m.has(id) {
            assert(0 <= m.table[id].cell < m.cells.len());
        }
    }
}

proof fn lemma_session_cells_exist<C, R>(steps: Seq<Step<C, R>>, cell: int)
    requires
        session_respects(steps, cell),
    ensures
        cells_exist(session(steps)),
    decreases steps.len(),
{
    if steps.len() > 0 {
        lemma_session_cells_exist(steps.drop_last(), cell);
        law_cells_stay(session(steps.drop_last()), steps.last(), cell);
    }
}

/// In every session, a status that was published at some time is the one that is read
/// at any later time, whatever happens to other terminals.
pub proof fn law_status_stays_for_the_session<C, R>(
    steps: Seq<Step<C, R>>,
    early: int,
    cell: int,
)
    requires
        session_respects(steps, cell),
        0 <= early <= steps.len(),
        0 <= cell < session(steps.take(early)).cells.len(),
        session(steps.take(early)).cells[cell].exit_status is Some,
    ensures
        cell < session(steps).cells.len(),
        session(steps).cells[cell].exit_status == session(
            steps.take(early),
        ).cells[cell].exit_status,
    decreases steps.len(),
{
    if early == steps.len() {
        assert(steps.take(early) =~= steps);
    } else {
        let before = steps.drop_last();
        assert(before.take(early) =~= steps.take(early));
        law_status_stays_for_the_session(before, early, cell);
        lemma_session_cells_exist(before, cell);
        law_published_status_is_final(session(before), steps.last(), cell);
    }
}

/// Who is handed the handles of a terminal owns it.
pub proof fn law_asking_makes_owner<C, R>(
    m: TerminalsModel<C, R>,
    id: Seq<char>,
    ticket: TicketModel<C, R>,
)
    requires
        in_order(m),
        m.has(id),
        ticket.id == id,
        ticket.cell == m.table[id].cell,
        ticket.reader == m.table[id].reader,
    ensures
        wait_decision(m, id) is Finalize && ticket.child is None ==> owns(
            after_wait(m, id),
            ticket,
        ),
        wait_decision(m, id) is AwaitChild && ticket.child == m.table[id].child ==> owns(
            after_wait(m, id),
            ticket,
        ),
        kill_decision(m, id) is Cleanup && ticket.child == m.table[id].child ==> owns(
            after_kill(m, id),
            ticket,
        ),
        release_decision(m, id) is Cleanup && ticket.child == m.table[id].child ==> owns(
            after_release(m, id),
            ticket,
        ),
{
    assert(entry_in_order(m, id));
    let w = after_wait(m, id);
    let k = after_kill(m, id);
    let r = after_release(m, id);
    assert forall|other: Seq<char>| #[trigger]
        w.has(other) && w.table[other].cell == ticket.cell implies other == id by {
        assert(m.has(other));
    }
    assert forall|other: Seq<char>| #[trigger]
        k.has(other) && k.table[other].cell == ticket.cell implies other == id by {
        assert(m.has(other));
    }
    assert forall|other: Seq<char>| #[trigger]
        r.has(other) && r.table[other].cell == ticket.cell implies other == id by {
        assert(m.has(other));
    }
}

/// While a terminal has an owner, nobody else is handed anything of it: who waits
/// is told to wait on, who kills only sends signals, who releases asks again.
pub proof fn law_single_owner<C, R>(m: TerminalsModel<C, R>, ticket: TicketModel<C, R>)
    requires
        in_order(m),
        owns_named(m, ticket),
    ensures
        wait_decision(m, ticket.id) is AwaitExisting,
        kill_decision(m, ticket.id) is SignalOnly,
        release_decision(m, ticket.id) is Wait,
{
    assert(entry_in_order(m, ticket.id));
}

/// Whether a step may take a name from the terminal that has it, whoever owns that one.
pub open spec fn takes_name<C, R>(step: Step<C, R>, id: Seq<char>) -> bool {
    ||| step is Drain
    ||| step matches Step::Create { pid, .. } && terminal_name(pid) == id
    ||| finishes(step) && ticket_of(step)->0.id == id
}

/// What others do leaves an owner its terminal. It stays in the table under its name,
/// unless the name goes to a new one, the owner of another terminal that had the name
/// is done, or the table is emptied.
pub proof fn law_owner_undisturbed<C, R>(
    m: TerminalsModel<C, R>,
    ticket: TicketModel<C, R>,
    step: Step<C, R>,
)
    requires
        in_order(m),
        owns(m, ticket),
        possible(m, step),
        ticket_of(step) matches Some(other) ==> other.cell != ticket.cell,
    ensures
        owns(stepped(m, step), ticket),
        owns_named(m, ticket) && !takes_name(step, ticket.id) ==> owns_named(
            stepped(m, step),
            ticket,
        ),
{
    let after = stepped(m, step);
    if m.has(ticket.id) {
        assert(entry_in_order(m, ticket.id));
    }
    assert forall|id: Seq<char>| m.has(id) implies #[trigger] entry_in_order(m, id) by {}
    assert forall|id: Seq<char>| #[trigger]
        after.has(id) && after.table[id].cell == ticket.cell implies id == ticket.id by {
        if m.has(id) {
            assert(entry_in_order(m, id));
        }
    }
    lemma_asked_in_order(m, step);
}

/// An owner that has seen the child end is still the owner.
pub proof fn law_noting_keeps_owner<C, R>(
    m: TerminalsModel<C, R>,
    ticket: TicketModel<C, R>,
    seen: ExitView,
    status: Option<ExitView>,
)
    requires
        owns(m, ticket),
    ensures
        owns(exit_noted(m, ticket.cell, seen), TicketModel { child: None, ..ticket }),
        owns(kill_noted(m, ticket.cell, status), TicketModel { child: None, ..ticket }),
        owns(release_noted(m, ticket.cell, status), TicketModel { child: None, ..ticket }),
{
    let a = exit_noted(m, ticket.cell, seen);
    let b = kill_noted(m, ticket.cell, status);
    let c = release_noted(m, ticket.cell, status);
    assert forall|id: Seq<char>| #[trigger] a.has(id) implies m.has(id) by {}
    assert forall|id: Seq<char>| #[trigger] b.has(id) implies m.has(id) by {}
    assert forall|id: Seq<char>| #[trigger] c.has(id) implies m.has(id) by {}
}

/// A published status is final. It can be read for as long as the session lasts,
/// also after the terminal has left the table.
pub proof fn law_published_status_is_final<C, R>(
    m: TerminalsModel<C, R>,
    step: Step<C, R>,
    cell: int,
)
    requires
        cells_exist(m),
        respects(m, step, cell),
        0 <= cell < m.cells.len(),
        m.cells[cell].exit_status is Some,
    ensures
        cell < stepped(m, step).cells.len(),
        stepped(m, step).cells[cell].exit_status == m.cells[cell].exit_status,
{
    lemma_asked_exists(m, step);
}

/// A status is published by nothing but the last step of a cleaning up, when the
/// output has been drained.
pub proof fn law_status_published_after_drain<C, R>(
    m: TerminalsModel<C, R>,
    step: Step<C, R>,
    cell: int,
)
    requires
        in_order(m),
        possible(m, step),
        0 <= cell < m.cells.len(),
        m.cells[cell].exit_status is None,
        stepped(m, step).cells[cell].exit_status is Some,
    ensures
        finishes(step),
        ticket_of(step)->0.cell == cell,
        ticket_of(step)->0.reader is None,
        ticket_of(step)->0.child is None,
{
    lemma_asked_in_order(m, step);
}

/// Whoever waits learns the status that the owner publishes, also where the
/// terminal leaves the table at the same step.
pub proof fn law_waiters_learn_status<C, R>(
    m: TerminalsModel<C, R>,
    ticket: TicketModel<C, R>,
    status: ExitView,
)
    requires
        owns(m, ticket),
    ensures
        wait_finished(m, ticket.id, ticket.cell, status).cells[ticket.cell].exit_status == Some(
            status,
        ),
        m.cells[ticket.cell].pending_exit_status matches Some(pending) ==> {
            &&& kill_finished(m, ticket.id, ticket.cell).cells[ticket.cell].exit_status == Some(
                pending,
            )
            &&& release_finished(m, ticket.id, ticket.cell).cells[ticket.cell].exit_status == Some(
                pending,
            )
        },
{
}

/// Killing a terminal that has no owner publishes a status: the one that is
/// pending, the one that the child ended with, or, where that cannot be seen, one
/// that says nothing but that it ended.
pub proof fn law_kill_publishes_status<C, R>(
    m: TerminalsModel<C, R>,
    id: Seq<char>,
    status: Option<ExitView>,
)
    requires
        in_order(m),
        kill_decision(m, id) is Cleanup,
    ensures
        ({
            let cell = m.table[id].cell;
            let taken = after_kill(m, id);
            let noted = if m.table[id].child is Some {
                kill_noted(taken, cell, status)
            } else {
                taken
            };
            kill_finished(noted, id, cell).cells[cell].exit_status == if m.table[id].child is Some {
                if status is Some {
                    status
                } else {
                    Some(ExitView { exit_code: None, signal: None })
                }
            } else {
                m.cell(id).pending_exit_status
            }
        }),
{
    assert(m.has(id));
    assert(entry_in_order(m, id));
}

/// An owner that gives up at once leaves everything as it was before it asked, but for
/// the mark of one who asked to release.
pub proof fn law_abandoning_undoes_asking<C, R>(m: TerminalsModel<C, R>, id: Seq<char>)
    requires
        in_order(m),
        m.has(id),
    ensures
        wait_decision(m, id) is AwaitChild ==> abandoned(
            after_wait(m, id),
            id,
            m.table[id].cell,
            m.table[id].child,
            m.table[id].reader,
        ) == m,
        wait_decision(m, id) is Finalize ==> abandoned(
            after_wait(m, id),
            id,
            m.table[id].cell,
            None,
            m.table[id].reader,
        ) == m,
        kill_decision(m, id) is Cleanup ==> abandoned(
            after_kill(m, id),
            id,
            m.table[id].cell,
            m.table[id].child,
            m.table[id].reader,
        ) == m,
        release_decision(m, id) is Cleanup ==> abandoned(
            after_release(m, id),
            id,
            m.table[id].cell,
            m.table[id].child,
            m.table[id].reader,
        ) == release_marked(m, id),
{
    assert(entry_in_order(m, id));
    let entry = m.table[id];
    let w = abandoned(after_wait(m, id), id, entry.cell, entry.child, entry.reader);
    let f = abandoned(after_wait(m, id), id, entry.cell, None, entry.reader);
    let k = abandoned(after_kill(m, id), id, entry.cell, entry.child, entry.reader);
    if wait_decision(m, id) is AwaitChild {
        assert(w.table =~= m.table);
        assert(w.cells =~= m.cells);
    }
    if wait_decision(m, id) is Finalize {
        assert(f.table =~= m.table);
        assert(f.cells =~= m.cells);
    }
    if kill_decision(m, id) is Cleanup {
        assert(k.table =~= m.table);
        assert(k.cells =~= m.cells);
    }
    if release_decision(m, id) is Cleanup {
        let r = abandoned(after_release(m, id), id, entry.cell, entry.child, entry.reader);
        assert(r.table =~= release_marked(m, id).table);
        assert(r.cells =~= release_marked(m, id).cells);
    }
}

/// An owner that gives up later hands back what it still holds, and the terminal is
/// free for the next one: with the child, if it has not ended, to wait for it, and
/// else to finish the cleaning up.
pub proof fn law_abandoned_cleanup_resumes<C, R>(
    m: TerminalsModel<C, R>,
    ticket: TicketModel<C, R>,
)
    requires
        in_order(m),
        owns_named(m, ticket),
    ensures
        ({
            let after = abandoned(m, ticket.id, ticket.cell, ticket.child, ticket.reader);
            &&& after.has(ticket.id)
            &&& after.table[ticket.id].child == ticket.child
            &&& after.table[ticket.id].reader == ticket.reader
            &&& after.table[ticket.id].pid == m.table[ticket.id].pid
            &&& !after.cell(ticket.id).cleanup_in_progress
            &&& ticket.child is Some ==> wait_decision(after, ticket.id) is AwaitChild
            &&& m.cell(ticket.id).pending_exit_status matches Some(status) ==> wait_decision(
                after,
                ticket.id,
            ) == WaitDecision::Finalize(status)
        }),
{
    assert(entry_in_order(m, ticket.id));
}

/// A request to release stands until the terminal has left the table.
pub proof fn law_release_request_stands<C, R>(
    m: TerminalsModel<C, R>,
    step: Step<C, R>,
    cell: int,
)
    requires
        cells_exist(m),
        respects(m, step, cell),
        0 <= cell < m.cells.len(),
        m.cells[cell].release_requested,
    ensures
        stepped(m, step).cells[cell].release_requested,
{
    lemma_asked_exists(m, step);
}

/// A terminal leaves the table when it is released, when one that cleans up under its
/// name after a request to release is done, or when the table is emptied. Killing it or
/// waiting for it keeps it.
pub proof fn law_who_leaves_the_table<C, R>(
    m: TerminalsModel<C, R>,
    step: Step<C, R>,
    id: Seq<char>,
)
    requires
        in_order(m),
        possible(m, step),
        m.has(id),
    ensures
        !stepped(m, step).has(id) <==> {
            ||| step == Step::<C, R>::AskRelease { id } && release_decision(m, id) is Remove
            ||| step matches Step::FinishRelease { ticket } && ticket.id == id
            ||| step matches Step::FinishWait { ticket, .. } && ticket.id == id
                && m.cells[ticket.cell].release_requested
            ||| step matches Step::FinishKill { ticket } && ticket.id == id
                && m.cells[ticket.cell].release_requested
            ||| step is Drain
        },
{
}

/// A release by the owner itself ends with the terminal out of the table.
pub proof fn law_release_removes<C, R>(m: TerminalsModel<C, R>, ticket: TicketModel<C, R>)
    ensures
        !release_finished(m, ticket.id, ticket.cell).has(ticket.id),
        release_decision(m, ticket.id) is Remove ==> !after_release(m, ticket.id).has(ticket.id),
{
}

/// A process number that has been cleared is not signalled again: no step but the
/// creation of a terminal gives one a number.
pub proof fn law_cleared_pid_stays_cleared<C, R>(
    m: TerminalsModel<C, R>,
    step: Step<C, R>,
    id: Seq<char>,
)
    requires
        m.has(id),
        m.table[id].pid is None,
        !(step is Create),
        stepped(m, step).has(id),
    ensures
        stepped(m, step).table[id].pid is None,
{
}

/// Emptying the table at the end of a session leaves nothing to wait for, kill or
/// release. What has been published stays, and an owner that is not done yet can still
/// publish a status, but has nowhere to hand its handles back to.
pub proof fn law_emptied_table<C, R>(m: TerminalsModel<C, R>, ticket: TicketModel<C, R>)
    requires
        in_order(m),
    ensures
        in_order(drained(m)),
        drained(m).cells == m.cells,
        wait_decision(drained(m), ticket.id) is Unknown,
        kill_decision(drained(m), ticket.id) is Unknown,
        release_decision(drained(m), ticket.id) is Missing,
        owns(m, ticket) ==> owns(drained(m), ticket),
        abandoned(drained(m), ticket.id, ticket.cell, ticket.child, ticket.reader) == drained(m),
{
}

/// Whether a terminal has captured all of an output.
pub open spec fn captures<C, R>(entry: EntryModel<C, R>, stream: Seq<u8>) -> bool {
    &&& entry.output == retained(stream, entry.output_byte_limit)
    &&& entry.output_truncated == dropped(stream, entry.output_byte_limit)
}

/// A terminal that captures an output chunk by chunk has captured all of it.
pub proof fn law_capture_continues<C, R>(
    entry: EntryModel<C, R>,
    stream: Seq<u8>,
    chunk: Seq<u8>,
)
    requires
        captures(entry, stream),
    ensures
        captures(entry_appended(entry, chunk), stream + chunk),
{
    law_retained_in_steps(stream, chunk, entry.output_byte_limit);
}

/// A new terminal has captured the empty output.
pub proof fn law_capture_starts_empty<C, R>(
    m: TerminalsModel<C, R>,
    child: C,
    pid: Option<u32>,
    limit: Option<u64>,
    reader: R,
)
    ensures
        captures(
            created(m, child, pid, limit, reader).table[terminal_name(pid)],
            Seq::empty(),
        ),
{
    assert(retained(Seq::empty(), limit) =~= Seq::empty());
}

/// What the reader of a terminal has captured in the course of a session.
pub open spec fn stream_of<C, R>(steps: Seq<Step<C, R>>, cell: int) -> Seq<u8>
    decreases steps.len(),
{
    if steps.len() == 0 {
        Seq::empty()
    } else {
        let earlier = stream_of(steps.drop_last(), cell);
        match steps.last() {
            Step::Append { cell: at, chunk } => if at == cell && cell < session(
                steps.drop_last(),
            ).cells.len() {
                earlier + chunk
            } else {
                earlier
            },
            _ => earlier,
        }
    }
}

proof fn lemma_no_stream_before_creation<C, R>(steps: Seq<Step<C, R>>, cell: int)
    requires
        session_respects(steps, cell),
        cell >= session(steps).cells.len(),
    ensures
        stream_of(steps, cell) == Seq::<u8>::empty(),
    decreases steps.len(),
{
    if steps.len() > 0 {
        lemma_session_cells_exist(steps.drop_last(), cell);
        law_cells_stay(session(steps.drop_last()), steps.last(), cell);
        lemma_no_stream_before_creation(steps.drop_last(), cell);
    }
}

/// In every session, each terminal in the table has captured all that its reader took
/// in since it was created.
pub proof fn law_session_captures_output<C, R>(steps: Seq<Step<C, R>>, id: Seq<char>)
    requires
        session(steps).has(id),
        session_respects(steps, session(steps).table[id].cell),
    ensures
        captures(session(steps).table[id], stream_of(steps, session(steps).table[id].cell)),
    decreases steps.len(),
{
    let before = steps.drop_last();
    let m = session(before);
    let step = steps.last();
    lemma_session_cells_exist(before, session(steps).table[id].cell);
    if step is Create && terminal_name(step->Create_pid) == id {
        lemma_no_stream_before_creation(before, m.cells.len() as int);
        law_capture_starts_empty(
            m,
            step->Create_child,
            step->Create_pid,
            step->limit,
            step->Create_reader,
        );
    } else {
        assert(m.has(id));
        law_session_captures_output(before, id);
        if let Step::Append { cell, chunk } = step {
            if cell == m.table[id].cell {
                law_capture_continues(m.table[id], stream_of(before, cell), chunk);
            }
        }
    }
}

/// A terminal without a limit shows all of its output, and never as truncated.
pub proof fn law_unlimited_terminal_shows_all_output<C, R>(
    entry: EntryModel<C, R>,
    stream: Seq<u8>,
)
    requires
        captures(entry, stream),
        entry.output_byte_limit is None,
    ensures
        shown_output(entry) == lossy_text(stream),
        !shown_truncated(entry),
{
}

/// Under a limit, a terminal shows its output as if all of it had been kept, within the
/// limit, and reports it as truncated exactly if there was more of it than the limit.
pub proof fn law_terminal_shows_all_output<C, R>(
    entry: EntryModel<C, R>,
    stream: Seq<u8>,
    max: u64,
)
    requires
        captures(entry, stream),
        entry.output_byte_limit == Some(max),
    ensures
        shown_output(entry) == rendered(stream, in_memory(max)),
        encode_utf8(shown_output(entry)).len() <= max,
        shown_truncated(entry) == (stream.len() > max),
{
    law_retained_shows_as_stream(stream, max, in_memory(max));
    law_rendered_fits(stream, in_memory(max));
    law_truncation_reported(stream, max);
}

/// The limit that a terminal was created with in the course of a session.
pub open spec fn limit_of<C, R>(steps: Seq<Step<C, R>>, cell: int) -> Option<u64>
    decreases steps.len(),
{
    if steps.len() == 0 {
        None
    } else {
        match steps.last() {
            Step::Create { limit, .. } => if session(steps.drop_last()).cells.len() == cell {
                limit
            } else {
                limit_of(steps.drop_last(), cell)
            },
            _ => limit_of(steps.drop_last(), cell),
        }
    }
}

/// In every session, each terminal in the table keeps the limit that it was created
/// with.
pub proof fn law_session_keeps_limit<C, R>(steps: Seq<Step<C, R>>, id: Seq<char>)
    requires
        session(steps).has(id),
        session_respects(steps, session(steps).table[id].cell),
    ensures
        session(steps).table[id].output_byte_limit == limit_of(
            steps,
            session(steps).table[id].cell,
        ),
    decreases steps.len(),
{
    let before = steps.drop_last();
    let m = session(before);
    let step = steps.last();
    lemma_session_cells_exist(before, session(steps).table[id].cell);
    if !(step is Create && terminal_name(step->Create_pid) == id) {
        assert(m.has(id));
        law_session_keeps_limit(before, id);
    }
}

/// In every session, what is shown of a terminal in the table is what all that its
/// reader has taken in shows as: all of it without a limit, and under one the end that
/// fits. It is reported as truncated exactly if there was more of it than the limit.
pub proof fn law_session_shows_all_output<C, R>(steps: Seq<Step<C, R>>, id: Seq<char>)
    requires
        session(steps).has(id),
        session_respects(steps, session(steps).table[id].cell),
    ensures
        ({
            let entry = session(steps).table[id];
            let stream = stream_of(steps, entry.cell);
            match limit_of(steps, entry.cell) {
                None => shown_output(entry) == lossy_text(stream) && !shown_truncated(entry),
                Some(max) => {
                    &&& shown_output(entry) == rendered(stream, in_memory(max))
                    &&& encode_utf8(shown_output(entry)).len() <= max
                    &&& shown_truncated(entry) == (stream.len() > max)
                },
            }
        }),
{
    let entry = session(steps).table[id];
    let stream = stream_of(steps, entry.cell);
    law_session_captures_output(steps, id);
    law_session_keeps_limit(steps, id);
    match entry.output_byte_limit {
        None => law_unlimited_terminal_shows_all_output(entry, stream),
        Some(max) => law_terminal_shows_all_output(entry, stream, max),
    }
}

} // verus!
