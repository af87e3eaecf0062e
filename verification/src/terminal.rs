//! The terminals of a session: the commands that run on behalf of an agent.
//!
//! A terminal has a child process and a reader that captures its output. Whoever
//! waits for a terminal, kills it or releases it takes both handles out of the
//! table, as a [`PendingTerminalWait`], and marks the terminal as being cleaned up.
//! The others see the mark and wait for the status that is published at the end.
//! An owner that gives up hands the handles back.
//!
//! Each function here is one step that runs without interruption. Between two
//! steps the caller does what takes time: it waits, sleeps and sends signals.

use crate::acp_error::{unknown_terminal, AcpError};
use crate::exit_status::{status_view, TerminalExitStatus};
use crate::output::{append_terminal_output, byte_count, render_utf8_suffix_with_byte_limit};
use crate::terminal_model::{
    abandoned, after_kill, after_release, after_wait, created, drained, entry_appended,
    exit_noted, kill_decision, kill_finished, kill_noted, output_appended,
    pending_published, pid_cleared, release_decision, release_finished, release_marked,
    release_noted, shown_output, shown_truncated, takes_back, terminal_name, wait_decision,
    wait_finished, CellModel, EntryModel, TerminalsModel, WaitDecision,
};
use crate::text::{decimal_text, from_utf8_lossy};
use vstd::prelude::*;
use vstd::string::StringExecFns;
use vstd::utf8::{decode_utf8, valid_utf8};

verus! {

/// How long a reader is given to take in what is left of the output, in milliseconds.
pub const READER_DRAIN_MILLIS: u64 = 250;

/// How long to wait before asking again for a terminal that another one cleans up, in
/// milliseconds.
pub const RETRY_MILLIS: u64 = 25;

/// A terminal in the table.
#[derive(Debug)]
pub struct TerminalState<C, R> {
    pub child: Option<C>,
    pub pid: Option<u32>,
    pub output: Vec<u8>,
    pub output_truncated: bool,
    pub output_byte_limit: Option<u64>,
    pub reader: Option<R>,
    pub cell: usize,
}

impl<C, R> TerminalState<C, R> {
    pub open spec fn view(self) -> EntryModel<C, R> {
        EntryModel {
            child: self.child,
            pid: self.pid,
            output: self.output@,
            output_truncated: self.output_truncated,
            output_byte_limit: self.output_byte_limit,
            reader: self.reader,
            cell: self.cell as int,
        }
    }
}

/// What those who hold a terminal share.
#[derive(Debug)]
struct TerminalCell {
    exit_status: Option<TerminalExitStatus>,
    pending_exit_status: Option<TerminalExitStatus>,
    cleanup_in_progress: bool,
    release_requested: bool,
}

impl TerminalCell {
    spec fn view(self) -> CellModel {
        CellModel {
            exit_status: status_view(self.exit_status),
            pending_exit_status: status_view(self.pending_exit_status),
            cleanup_in_progress: self.cleanup_in_progress,
            release_requested: self.release_requested,
        }
    }
}

/// The handles of a terminal, in the hands of the one that cleans it up.
#[derive(Debug)]
pub struct PendingTerminalWait<C, R> {
    pub terminal_id: String,
    pub child: Option<C>,
    pub reader: Option<R>,
    pub cell: usize,
    pub pid: Option<u32>,
}

/// Whether a ticket holds the reader of a terminal, and its child where asked for.
pub open spec fn ticket_from<C, R>(
    ticket: PendingTerminalWait<C, R>,
    m: TerminalsModel<C, R>,
    id: Seq<char>,
    child_too: bool,
) -> bool {
    &&& ticket.terminal_id@ == id
    &&& ticket.child == if child_too {
        m.table[id].child
    } else {
        None
    }
    &&& ticket.reader == m.table[id].reader
    &&& ticket.cell == m.table[id].cell
    &&& ticket.pid == m.table[id].pid
}

spec fn named<C, R>(entries: Seq<(String, TerminalState<C, R>)>, i: int, id: Seq<char>) -> bool {
    0 <= i < entries.len() && entries[i].0@ == id
}

spec fn table_of<C, R>(entries: Seq<(String, TerminalState<C, R>)>) -> Map<
    Seq<char>,
    EntryModel<C, R>,
> {
    Map::new(
        |id: Seq<char>| exists|i: int| named(entries, i, id),
        |id: Seq<char>| entries[choose|i: int| named(entries, i, id)].1@,
    )
}

spec fn distinct_ids<C, R>(entries: Seq<(String, TerminalState<C, R>)>) -> bool {
    forall|i: int, j: int|
        0 <= i < j < entries.len() ==> (#[trigger] entries[i]).0@ != (#[trigger] entries[j]).0@
}

proof fn lemma_table_lookup<C, R>(entries: Seq<(String, TerminalState<C, R>)>, i: int)
    requires
        distinct_ids(entries),
        0 <= i < entries.len(),
    ensures
        table_of(entries).contains_key(entries[i].0@),
        table_of(entries)[entries[i].0@] == entries[i].1@,
{
    let id = entries[i].0@;
    assert(named(entries, i, id));
    let j = choose|j: int| named(entries, j, id);
    assert(named(entries, j, id));
    if i < j {
        assert(entries[i].0@ != entries[j].0@);
    } else if j < i {
        assert(entries[j].0@ != entries[i].0@);
    }
}

proof fn lemma_table_missing<C, R>(entries: Seq<(String, TerminalState<C, R>)>, id: Seq<char>)
    requires
        forall|i: int| 0 <= i < entries.len() ==> (#[trigger] entries[i]).0@ != id,
    ensures
        !table_of(entries).contains_key(id),
{
    assert forall|i: int| !named(entries, i, id) by {
        if 0 <= i < entries.len() {
            assert(entries[i].0@ != id);
        }
    }
}

proof fn lemma_table_update<C, R>(
    before: Seq<(String, TerminalState<C, R>)>,
    after: Seq<(String, TerminalState<C, R>)>,
    i: int,
)
    requires
        distinct_ids(before),
        0 <= i < before.len(),
        after.len() == before.len(),
        after[i].0@ == before[i].0@,
        forall|j: int| 0 <= j < before.len() && j != i ==> #[trigger] after[j] == before[j],
    ensures
        distinct_ids(after),
        table_of(after) == table_of(before).insert(before[i].0@, after[i].1@),
{
    let id = before[i].0@;
    assert forall|j: int, k: int| 0 <= j < k < after.len() implies (#[trigger] after[j]).0@ != (
    #[trigger] after[k]).0@ by {
        assert(before[j].0@ != before[k].0@);
    }
    assert forall|other: Seq<char>| #[trigger]
        table_of(after).contains_key(other) == table_of(before).insert(
            id,
            after[i].1@,
        ).contains_key(other) by {
        assert forall|j: int| named(after, j, other) == named(before, j, other) by {}
        if exists|j: int| named(after, j, other) {
            let j = choose|j: int| named(after, j, other);
            assert(named(before, j, other));
        }
        if exists|j: int| named(before, j, other) {
            let j = choose|j: int| named(before, j, other);
            assert(named(after, j, other));
        }
        assert(named(before, i, id));
    }
    assert forall|other: Seq<char>| #[trigger] table_of(after).contains_key(other) implies table_of(
        after,
    )[other] == table_of(before).insert(id, after[i].1@)[other] by {
        let j = choose|j: int| named(after, j, other);
        assert(named(after, j, other));
        lemma_table_lookup(after, j);
        lemma_table_lookup(before, j);
    }
    assert(table_of(after) =~= table_of(before).insert(id, after[i].1@));
}

proof fn lemma_table_push<C, R>(
    entries: Seq<(String, TerminalState<C, R>)>,
    added: (String, TerminalState<C, R>),
)
    requires
        distinct_ids(entries),
        forall|i: int| 0 <= i < entries.len() ==> (#[trigger] entries[i]).0@ != added.0@,
    ensures
        distinct_ids(entries.push(added)),
        table_of(entries.push(added)) == table_of(entries).insert(added.0@, added.1@),
{
    let after = entries.push(added);
    let id = added.0@;
    assert forall|j: int, k: int| 0 <= j < k < after.len() implies (#[trigger] after[j]).0@ != (
    #[trigger] after[k]).0@ by {
        assert(entries[j].0@ != id);
        if k < entries.len() {
            assert(entries[j].0@ != entries[k].0@);
        }
    }
    assert(named(after, entries.len() as int, id));
    assert forall|other: Seq<char>| #[trigger]
        table_of(after).contains_key(other) == table_of(entries).insert(
            id,
            added.1@,
        ).contains_key(other) by {
        if exists|j: int| named(after, j, other) {
            let j = choose|j: int| named(after, j, other);
            assert(j < entries.len() ==> named(entries, j, other));
        }
        if exists|j: int| named(entries, j, other) {
            let j = choose|j: int| named(entries, j, other);
            assert(named(after, j, other));
        }
    }
    assert forall|other: Seq<char>| #[trigger] table_of(after).contains_key(other) implies table_of(
        after,
    )[other] == table_of(entries).insert(id, added.1@)[other] by {
        let j = choose|j: int| named(after, j, other);
        assert(named(after, j, other));
        lemma_table_lookup(after, j);
        if j < entries.len() {
            assert(entries[j].0@ != id);
            lemma_table_lookup(entries, j);
        }
    }
    assert(table_of(after) =~= table_of(entries).insert(id, added.1@));
}

proof fn lemma_table_remove<C, R>(entries: Seq<(String, TerminalState<C, R>)>, i: int)
    requires
        distinct_ids(entries),
        0 <= i < entries.len(),
    ensures
        distinct_ids(entries.remove(i)),
        table_of(entries.remove(i)) == table_of(entries).remove(entries[i].0@),
{
    let after = entries.remove(i);
    let id = entries[i].0@;
    assert forall|j: int, k: int| 0 <= j < k < after.len() implies (#[trigger] after[j]).0@ != (
    #[trigger] after[k]).0@ by {
        let a = if j < i {
            j
        } else {
            j + 1
        };
        let b = if k < i {
            k
        } else {
            k + 1
        };
        assert(entries[a].0@ != entries[b].0@);
    }
    assert forall|j: int| 0 <= j < after.len() implies (#[trigger] after[j]).0@ != id by {
        let a = if j < i {
            j
        } else {
            j + 1
        };
        if a < i {
            assert(entries[a].0@ != entries[i].0@);
        } else {
            assert(entries[i].0@ != entries[a].0@);
        }
    }
    lemma_table_missing(after, id);
    assert forall|other: Seq<char>| #[trigger]
        table_of(after).contains_key(other) == table_of(entries).remove(id).contains_key(other) by {
        if exists|j: int| named(after, j, other) {
            let j = choose|j: int| named(after, j, other);
            let a = if j < i {
                j
            } else {
                j + 1
            };
            assert(named(entries, a, other));
            assert(after[j].0@ != id);
        }
        if other != id && exists|j: int| named(entries, j, other) {
            let j = choose|j: int| named(entries, j, other);
            let a = if j < i {
                j
            } else {
                j - 1
            };
            assert(named(after, a, other));
        }
    }
    assert forall|other: Seq<char>| #[trigger] table_of(after).contains_key(other) implies table_of(
        after,
    )[other] == table_of(entries).remove(id)[other] by {
        let j = choose|j: int| named(after, j, other);
        assert(named(after, j, other));
        lemma_table_lookup(after, j);
        let a = if j < i {
            j
        } else {
            j + 1
        };
        lemma_table_lookup(entries, a);
    }
    assert(table_of(after) =~= table_of(entries).remove(id));
}

/// The terminals of a session and what is shared of them, also of those that have left.
#[derive(Debug)]
struct TerminalTable<C, R> {
    entries: Vec<(String, TerminalState<C, R>)>,
    cells: Vec<TerminalCell>,
}

impl<C, R> TerminalTable<C, R> {
    spec fn view(self) -> TerminalsModel<C, R> {
        TerminalsModel {
            table: table_of(self.entries@),
            cells: self.cells@.map_values(|cell: TerminalCell| cell@),
        }
    }

    /// Whether no terminal occurs twice and each has a shared part of its own.
    spec fn well_formed(self) -> bool {
        &&& distinct_ids(self.entries@)
        &&& forall|i: int|
            0 <= i < self.entries@.len() ==> (#[trigger] self.entries@[i]).1.cell
                < self.cells@.len()
        &&& forall|i: int, j: int|
            0 <= i < j < self.entries@.len() ==> (#[trigger] self.entries@[i]).1.cell != (
            #[trigger] self.entries@[j]).1.cell
    }

    /// No terminals.
    fn new() -> (table: TerminalTable<C, R>)
        ensures
            table.well_formed(),
            table@ == (TerminalsModel::<C, R> { table: Map::empty(), cells: Seq::empty() }),
    {
        let table = TerminalTable { entries: Vec::new(), cells: Vec::new() };
        assert(table@.table =~= Map::empty());
        assert(table@.cells =~= Seq::empty());
        table
    }

    fn find(&self, id: &str) -> (found: Option<usize>)
        requires
            self.well_formed(),
        ensures
            found matches Some(i) ==> i < self.entries@.len() && self.entries@[i as int].0@ == id@
                && self@.has(id@) && self@.table[id@] == self.entries@[i as int].1@,
            found is None <==> !self@.has(id@),
            found is None ==> forall|i: int|
                0 <= i < self.entries@.len() ==> (#[trigger] self.entries@[i]).0@ != id@,
    {
        let wanted: String = id.to_owned();
        let mut i: usize = 0;
        while i < self.entries.len()
            invariant
                i <= self.entries@.len(),
                wanted@ == id@,
                self.well_formed(),
                forall|j: int| 0 <= j < i ==> (#[trigger] self.entries@[j]).0@ != id@,
            decreases self.entries@.len() - i,
        {
            if self.entries[i].0 == wanted {
                proof {
                    lemma_table_lookup(self.entries@, i as int);
                }
                return Some(i);
            }
            i = i + 1;
        }
        proof {
            lemma_table_missing(self.entries@, id@);
        }
        None
    }

    /// Takes a terminal out of the table.
    fn take_out(&mut self, id: &str) -> (removed: Option<TerminalState<C, R>>)
        requires
            old(self).well_formed(),
        ensures
            final(self).well_formed(),
            final(self)@ == old(self)@.without(id@),
            final(self).cells == old(self).cells,
            match removed {
                Some(state) => old(self)@.has(id@) && state@ == old(self)@.table[id@],
                None => !old(self)@.has(id@),
            },
    {
        let ghost before = *self;
        match self.find(id) {
            Some(i) => {
                proof {
                    lemma_table_remove(self.entries@, i as int);
                }
                let (_, state) = self.entries.remove(i);
                Some(state)
            },
            None => {
                assert(before@.table.remove(id@) =~= before@.table);
                None
            },
        }
    }

    /// Hands the handles of a terminal out to an owner.
    fn hand_out(&mut self, i: usize, id: &str, child_too: bool) -> (ticket: PendingTerminalWait<
        C,
        R,
    >)
        requires
            old(self).well_formed(),
            i < old(self).entries@.len(),
            old(self).entries@[i as int].0@ == id@,
        ensures
            final(self).well_formed(),
            final(self)@ == old(self)@.handed_out(id@, child_too),
            ticket_from(ticket, old(self)@, id@, child_too),
            ticket.cell < final(self)@.cells.len(),
    {
        let ghost before = *self;
        proof {
            lemma_table_lookup(before.entries@, i as int);
        }
        let state = &mut self.entries[i].1;
        let child = if child_too {
            state.child.take()
        } else {
            None
        };
        let reader = state.reader.take();
        let cell: usize = state.cell;
        let pid = state.pid;
        self.cells[cell].cleanup_in_progress = true;
        proof {
            lemma_table_update(before.entries@, self.entries@, i as int);
            let after = before@.handed_out(id@, child_too);
            assert(self@.cells =~= after.cells);
            assert(self@.table =~= after.table);
        }
        PendingTerminalWait { terminal_id: id.to_owned(), child, reader, cell, pid }
    }

    /// Publishes the status that is pending.
    fn publish_pending(&mut self, cell: usize)
        requires
            old(self).well_formed(),
            cell < old(self)@.cells.len(),
        ensures
            final(self).well_formed(),
            final(self)@ == pending_published(old(self)@, cell as int),
    {
        let ghost before = self@;
        let status = self.cells[cell].pending_exit_status.take();
        if let Some(status) = status {
            self.cells[cell].exit_status = Some(status);
        }
        self.cells[cell].cleanup_in_progress = false;
        assert(self@.cells =~= pending_published(before, cell as int).cells);
    }
}

/// What one who waits for a terminal does next.
#[derive(Debug)]
pub enum WaitPlan<C, R> {
    Done(TerminalExitStatus),
    AwaitExisting(usize),
    Finalize(PendingTerminalWait<C, R>, TerminalExitStatus),
    AwaitChild(PendingTerminalWait<C, R>),
}

/// What one who waits for another to clean up does next.
#[derive(Debug)]
pub enum AwaitStep {
    /// The status has been published.
    Done(TerminalExitStatus),
    /// Sleep for so many milliseconds, and look again.
    Sleep(u64),
    /// Ask again to wait for the terminal.
    AskAgain,
}

/// What one who kills a terminal does next.
#[derive(Debug)]
pub enum KillPlan<C, R> {
    Done,
    SignalOnly { pid: Option<u32> },
    Cleanup(PendingTerminalWait<C, R>),
}

/// What one who releases a terminal does next.
#[derive(Debug)]
pub enum ReleasePlan<C, R> {
    /// The terminal has left the table since it was first asked for.
    Gone,
    Wait { pid: Option<u32> },
    Remove,
    Cleanup(PendingTerminalWait<C, R>),
}

/// The answer to a request for a terminal's output.
#[derive(Debug)]
pub struct TerminalOutput {
    pub output: String,
    pub truncated: bool,
    pub exit_status: Option<TerminalExitStatus>,
}

/// All terminals of a session. `C` is the handle of a child process, `R` that of a
/// reader.
#[derive(Debug)]
pub struct Terminals<C, R> {
    table: TerminalTable<C, R>,
}

impl<C, R> Terminals<C, R> {
    pub closed spec fn view(self) -> TerminalsModel<C, R> {
        self.table@
    }

    #[verifier::type_invariant]
    spec fn well_formed(self) -> bool {
        self.table.well_formed()
    }

    /// No terminals.
    pub fn new() -> (terminals: Terminals<C, R>)
        ensures
            terminals@ == (TerminalsModel::<C, R> { table: Map::empty(), cells: Seq::empty() }),
    {
        Terminals { table: TerminalTable::new() }
    }

    /// Takes the table out, to be changed and put back.
    fn take(&mut self) -> (table: TerminalTable<C, R>)
        ensures
            table == old(self).table,
            table.well_formed(),
    {
        proof {
            use_type_invariant(&*self);
        }
        let mut table = TerminalTable::new();
        std::mem::swap(&mut table, &mut self.table);
        table
    }

    /// The shared part that the next terminal will have.
    pub fn next_cell(&self) -> (cell: usize)
        ensures
            cell == self@.cells.len(),
    {
        self.table.cells.len()
    }

    /// Puts a terminal for a command that has been started into the table, in
    /// place of one of the same name, which is given back.
    pub fn create_terminal(
        &mut self,
        child: C,
        pid: Option<u32>,
        output_byte_limit: Option<u64>,
        reader: R,
    ) -> (r: (String, Option<TerminalState<C, R>>))
        ensures
            final(self)@ == created(old(self)@, child, pid, output_byte_limit, reader),
            r.0@ == terminal_name(pid),
            match r.1 {
                Some(replaced) => old(self)@.has(r.0@) && replaced@ == old(self)@.table[r.0@],
                None => !old(self)@.has(r.0@),
            },
    {
        let mut table = self.take();
        let ghost before = table@;
        let mut id = "term-".to_owned();
        let number: u64 = match pid {
            Some(pid) => pid as u64,
            None => 0,
        };
        let digits = decimal_text(number);
        id.append(digits.as_str());
        let cell: usize = table.cells.len();
        let state = TerminalState {
            child: Some(child),
            pid,
            output: Vec::new(),
            output_truncated: false,
            output_byte_limit,
            reader: Some(reader),
            cell,
        };
        let ghost entry = state@;
        assert(entry.output =~= Seq::empty());
        let replaced = table.take_out(id.as_str());
        let ghost entries = table.entries@;
        table.cells.push(
            TerminalCell {
                exit_status: None,
                pending_exit_status: None,
                cleanup_in_progress: false,
                release_requested: false,
            },
        );
        let name = id.clone();
        proof {
            assert forall|i: int| 0 <= i < entries.len() implies (#[trigger] entries[i]).0@
                != id@ by {
                lemma_table_lookup(entries, i);
            }
            lemma_table_push(entries, (name, state));
        }
        table.entries.push((name, state));
        proof {
            let after = created(before, child, pid, output_byte_limit, reader);
            assert(table@.cells =~= after.cells);
            assert(table@.table =~= after.table);
        }
        self.table = table;
        (id, replaced)
    }

    /// One asks to wait for a terminal.
    pub fn wait_for_terminal_exit(&mut self, terminal_id: &str) -> (plan: Result<
        WaitPlan<C, R>,
        AcpError,
    >)
        ensures
            final(self)@ == after_wait(old(self)@, terminal_id@),
            match plan {
                Err(error) => wait_decision(old(self)@, terminal_id@) is Unknown && error@
                    == unknown_terminal(terminal_id@),
                Ok(WaitPlan::Done(status)) => wait_decision(old(self)@, terminal_id@)
                    == WaitDecision::Done(status@) && old(self)@.cell(terminal_id@).exit_status
                    == Some(status@),
                Ok(WaitPlan::AwaitExisting(cell)) => wait_decision(old(self)@, terminal_id@)
                    is AwaitExisting && cell == old(self)@.table[terminal_id@].cell && cell
                    < final(self)@.cells.len(),
                Ok(WaitPlan::Finalize(ticket, status)) => wait_decision(
                    old(self)@,
                    terminal_id@,
                ) == WaitDecision::Finalize(status@) && ticket_from(
                    ticket,
                    old(self)@,
                    terminal_id@,
                    false,
                ) && ticket.cell < final(self)@.cells.len(),
                Ok(WaitPlan::AwaitChild(ticket)) => wait_decision(old(self)@, terminal_id@)
                    is AwaitChild && ticket_from(ticket, old(self)@, terminal_id@, true)
                    && ticket.cell < final(self)@.cells.len(),
            },
    {
        proof {
            use_type_invariant(&*self);
        }
        let i: usize = match self.table.find(terminal_id) {
            Some(i) => i,
            None => return Err(AcpError::unknown_terminal(terminal_id)),
        };
        let mut table = self.take();
        let cell: usize = table.entries[i].1.cell;
        assert(table@.cell(terminal_id@) == table.cells@[cell as int]@);
        let plan = if let Some(status) = &table.cells[cell].exit_status {
            WaitPlan::Done(status.clone())
        } else if let Some(status) = &table.cells[cell].pending_exit_status {
            if table.cells[cell].cleanup_in_progress {
                WaitPlan::AwaitExisting(cell)
            } else {
                let status = status.clone();
                let ticket = table.hand_out(i, terminal_id, false);
                WaitPlan::Finalize(ticket, status)
            }
        } else if table.entries[i].1.child.is_some() {
            let ticket = table.hand_out(i, terminal_id, true);
            WaitPlan::AwaitChild(ticket)
        } else {
            WaitPlan::AwaitExisting(cell)
        };
        self.table = table;
        Ok(plan)
    }

    /// One asks to kill a terminal's command.
    pub fn kill_terminal_command(&mut self, terminal_id: &str) -> (plan: Result<
        KillPlan<C, R>,
        AcpError,
    >)
        ensures
            final(self)@ == after_kill(old(self)@, terminal_id@),
            match plan {
                Err(error) => kill_decision(old(self)@, terminal_id@) is Unknown && error@
                    == unknown_terminal(terminal_id@),
                Ok(KillPlan::Done) => kill_decision(old(self)@, terminal_id@) is Done,
                Ok(KillPlan::SignalOnly { pid }) => kill_decision(old(self)@, terminal_id@)
                    is SignalOnly && pid == old(self)@.table[terminal_id@].pid,
                Ok(KillPlan::Cleanup(ticket)) => kill_decision(old(self)@, terminal_id@)
                    is Cleanup && ticket_from(ticket, old(self)@, terminal_id@, true)
                    && ticket.cell < final(self)@.cells.len(),
            },
    {
        proof {
            use_type_invariant(&*self);
        }
        let i: usize = match self.table.find(terminal_id) {
            Some(i) => i,
            None => return Err(AcpError::unknown_terminal(terminal_id)),
        };
        let mut table = self.take();
        let cell: usize = table.entries[i].1.cell;
        let pid = table.entries[i].1.pid;
        assert(table@.cell(terminal_id@) == table.cells@[cell as int]@);
        let plan = if table.cells[cell].exit_status.is_some() {
            KillPlan::Done
        } else if table.cells[cell].cleanup_in_progress {
            KillPlan::SignalOnly { pid }
        } else if table.cells[cell].pending_exit_status.is_some()
            || table.entries[i].1.child.is_some() {
            let ticket = table.hand_out(i, terminal_id, true);
            KillPlan::Cleanup(ticket)
        } else {
            KillPlan::SignalOnly { pid }
        };
        self.table = table;
        Ok(plan)
    }

    /// One asks to release a terminal. `saw_terminal` says whether the same request
    /// has found it in the table before.
    pub fn release_terminal(&mut self, terminal_id: &str, saw_terminal: bool) -> (plan: Result<
        ReleasePlan<C, R>,
        AcpError,
    >)
        ensures
            final(self)@ == after_release(old(self)@, terminal_id@),
            match plan {
                Err(error) => release_decision(old(self)@, terminal_id@) is Missing
                    && !saw_terminal && error@ == unknown_terminal(terminal_id@),
                Ok(ReleasePlan::Gone) => release_decision(old(self)@, terminal_id@) is Missing
                    && saw_terminal,
                Ok(ReleasePlan::Wait { pid }) => release_decision(old(self)@, terminal_id@)
                    is Wait && pid == old(self)@.table[terminal_id@].pid,
                Ok(ReleasePlan::Remove) => release_decision(old(self)@, terminal_id@) is Remove,
                Ok(ReleasePlan::Cleanup(ticket)) => release_decision(old(self)@, terminal_id@)
                    is Cleanup && ticket_from(ticket, old(self)@, terminal_id@, true)
                    && ticket.cell < final(self)@.cells.len(),
            },
    {
        proof {
            use_type_invariant(&*self);
        }
        let i: usize = match self.table.find(terminal_id) {
            Some(i) => i,
            None => {
                if saw_terminal {
                    return Ok(ReleasePlan::Gone);
                }
                return Err(AcpError::unknown_terminal(terminal_id));
            },
        };
        let mut table = self.take();
        let ghost before = table@;
        let cell: usize = table.entries[i].1.cell;
        let pid = table.entries[i].1.pid;
        assert(table@.cell(terminal_id@) == table.cells@[cell as int]@);
        table.cells[cell].release_requested = true;
        assert(table@.cells =~= release_marked(before, terminal_id@).cells);
        assert(table@ == release_marked(before, terminal_id@));
        let plan = if table.cells[cell].cleanup_in_progress {
            ReleasePlan::Wait { pid }
        } else if table.entries[i].1.child.is_none() && table.entries[i].1.reader.is_none() {
            if table.cells[cell].exit_status.is_some()
                || table.cells[cell].pending_exit_status.is_some() {
                table.take_out(terminal_id);
                ReleasePlan::Remove
            } else {
                ReleasePlan::Wait { pid }
            }
        } else {
            let ticket = table.hand_out(i, terminal_id, true);
            ReleasePlan::Cleanup(ticket)
        };
        self.table = table;
        Ok(plan)
    }

    /// Whether a shared part exists.
    pub fn has_cell(&self, cell: usize) -> (r: bool)
        ensures
            r == (cell < self@.cells.len()),
    {
        cell < self.table.cells.len()
    }

    /// The status that has been published for a terminal, which may have left the
    /// table.
    pub fn published_status(&self, cell: usize) -> (status: Option<TerminalExitStatus>)
        requires
            cell < self@.cells.len(),
        ensures
            status_view(status) == self@.cells[cell as int].exit_status,
    {
        proof {
            use_type_invariant(self);
        }
        match &self.table.cells[cell].exit_status {
            Some(status) => Some(status.clone()),
            None => None,
        }
    }

    /// One who waits for another to clean up looks for the status, and sleeps once before
    /// asking again. The terminal may have left the table.
    pub fn await_existing(&self, cell: usize, slept: bool) -> (step: AwaitStep)
        requires
            cell < self@.cells.len(),
        ensures
            match step {
                AwaitStep::Done(status) => self@.cells[cell as int].exit_status == Some(status@),
                AwaitStep::Sleep(millis) => self@.cells[cell as int].exit_status is None && !slept
                    && millis == RETRY_MILLIS,
                AwaitStep::AskAgain => self@.cells[cell as int].exit_status is None && slept,
            },
    {
        match self.published_status(cell) {
            Some(status) => AwaitStep::Done(status),
            None => if slept {
                AwaitStep::AskAgain
            } else {
                AwaitStep::Sleep(RETRY_MILLIS)
            },
        }
    }

    /// One who waited saw the child end. The child's handle is given back.
    pub fn note_exit(
        &mut self,
        ticket: &mut PendingTerminalWait<C, R>,
        status: TerminalExitStatus,
    ) -> (child: Option<C>)
        requires
            old(ticket).cell < old(self)@.cells.len(),
        ensures
            final(self)@ == exit_noted(old(self)@, old(ticket).cell as int, status@),
            child == old(ticket).child,
            *final(ticket) == (PendingTerminalWait { child: None, ..*old(ticket) }),
    {
        let mut table = self.take();
        let ghost before = table@;
        let cell: usize = ticket.cell;
        let ghost status_seen = status@;
        table.cells[cell].pending_exit_status = Some(status);
        table.cells[cell].cleanup_in_progress = true;
        assert(table@.cells =~= exit_noted(before, cell as int, status_seen).cells);
        self.table = table;
        ticket.child.take()
    }

    /// One who kills saw the child end, or failed to see how. The child's handle is
    /// given back.
    pub fn note_kill_exit(
        &mut self,
        ticket: &mut PendingTerminalWait<C, R>,
        status: Option<TerminalExitStatus>,
    ) -> (child: Option<C>)
        requires
            old(ticket).cell < old(self)@.cells.len(),
        ensures
            final(self)@ == kill_noted(old(self)@, old(ticket).cell as int, status_view(status)),
            child == old(ticket).child,
            *final(ticket) == (PendingTerminalWait { child: None, ..*old(ticket) }),
    {
        let mut table = self.take();
        let ghost before = table@;
        let cell: usize = ticket.cell;
        let ghost status_seen = status_view(status);
        if let Some(status) = status {
            table.cells[cell].pending_exit_status = Some(status);
        } else if table.cells[cell].pending_exit_status.is_none()
            && table.cells[cell].exit_status.is_none() {
            table.cells[cell].pending_exit_status = Some(TerminalExitStatus::new());
        }
        assert(table@.cells =~= kill_noted(before, cell as int, status_seen).cells);
        self.table = table;
        ticket.child.take()
    }

    /// One who releases saw the child end, or failed to see how. The child's handle
    /// is given back.
    pub fn note_release_exit(
        &mut self,
        ticket: &mut PendingTerminalWait<C, R>,
        status: Option<TerminalExitStatus>,
    ) -> (child: Option<C>)
        requires
            old(ticket).cell < old(self)@.cells.len(),
        ensures
            final(self)@ == release_noted(
                old(self)@,
                old(ticket).cell as int,
                status_view(status),
            ),
            child == old(ticket).child,
            *final(ticket) == (PendingTerminalWait { child: None, ..*old(ticket) }),
    {
        let mut table = self.take();
        let ghost before = table@;
        let cell: usize = ticket.cell;
        let ghost status_seen = status_view(status);
        if let Some(status) = status {
            table.cells[cell].pending_exit_status = Some(status);
        }
        assert(table@.cells =~= release_noted(before, cell as int, status_seen).cells);
        self.table = table;
        ticket.child.take()
    }

    /// One who waited has cleaned up: the status is published. A terminal that
    /// leaves the table on this is given back.
    pub fn finish_wait(
        &mut self,
        ticket: PendingTerminalWait<C, R>,
        status: TerminalExitStatus,
    ) -> (removed: Option<TerminalState<C, R>>)
        requires
            ticket.cell < old(self)@.cells.len(),
            ticket.child is None,
            ticket.reader is None,
        ensures
            final(self)@ == wait_finished(
                old(self)@,
                ticket.terminal_id@,
                ticket.cell as int,
                status@,
            ),
            match removed {
                Some(state) => old(self)@.cells[ticket.cell as int].release_requested
                    && old(self)@.has(ticket.terminal_id@) && state@
                    == old(self)@.table[ticket.terminal_id@],
                None => !(old(self)@.cells[ticket.cell as int].release_requested && old(self)@.has(
                    ticket.terminal_id@,
                )),
            },
    {
        let mut table = self.take();
        let ghost before = table@;
        let cell: usize = ticket.cell;
        let ghost status_seen = status@;
        table.cells[cell].pending_exit_status = None;
        table.cells[cell].cleanup_in_progress = false;
        table.cells[cell].exit_status = Some(status);
        assert(table@.cells =~= wait_finished(
            before,
            ticket.terminal_id@,
            cell as int,
            status_seen,
        ).cells);
        let removed = if table.cells[cell].release_requested {
            table.take_out(ticket.terminal_id.as_str())
        } else {
            None
        };
        self.table = table;
        removed
    }

    /// One who killed has cleaned up. A terminal that leaves the table on this is
    /// given back.
    pub fn finish_kill(&mut self, ticket: PendingTerminalWait<C, R>) -> (removed: Option<
        TerminalState<C, R>,
    >)
        requires
            ticket.cell < old(self)@.cells.len(),
            ticket.child is None,
            ticket.reader is None,
        ensures
            final(self)@ == kill_finished(old(self)@, ticket.terminal_id@, ticket.cell as int),
            match removed {
                Some(state) => old(self)@.cells[ticket.cell as int].release_requested
                    && old(self)@.has(ticket.terminal_id@) && state@
                    == old(self)@.table[ticket.terminal_id@],
                None => !(old(self)@.cells[ticket.cell as int].release_requested && old(self)@.has(
                    ticket.terminal_id@,
                )),
            },
    {
        let mut table = self.take();
        let cell: usize = ticket.cell;
        table.publish_pending(cell);
        assert(table@.cells.len() == table.cells@.len());
        assert(table@.cells[cell as int] == table.cells@[cell as int]@);
        let removed = if table.cells[cell].release_requested {
            table.take_out(ticket.terminal_id.as_str())
        } else {
            None
        };
        self.table = table;
        removed
    }

    /// One who releases has cleaned up. The terminal is given back.
    pub fn finish_release(&mut self, ticket: PendingTerminalWait<C, R>) -> (removed: Option<
        TerminalState<C, R>,
    >)
        requires
            ticket.cell < old(self)@.cells.len(),
            ticket.child is None,
            ticket.reader is None,
        ensures
            final(self)@ == release_finished(old(self)@, ticket.terminal_id@, ticket.cell as int),
            match removed {
                Some(state) => old(self)@.has(ticket.terminal_id@) && state@
                    == old(self)@.table[ticket.terminal_id@],
                None => !old(self)@.has(ticket.terminal_id@),
            },
    {
        let mut table = self.take();
        table.publish_pending(ticket.cell);
        let removed = table.take_out(ticket.terminal_id.as_str());
        self.table = table;
        removed
    }

    /// An owner gives up. What cannot be handed back is left over: a child to be
    /// killed, a reader to be stopped.
    pub fn abandon(&mut self, ticket: PendingTerminalWait<C, R>) -> (left: (Option<C>, Option<R>))
        requires
            ticket.cell < old(self)@.cells.len(),
        ensures
            final(self)@ == abandoned(
                old(self)@,
                ticket.terminal_id@,
                ticket.cell as int,
                ticket.child,
                ticket.reader,
            ),
            left.0 == if takes_back(old(self)@, ticket.terminal_id@) && old(
                self,
            )@.table[ticket.terminal_id@].child is None {
                None
            } else {
                ticket.child
            },
            left.1 == if takes_back(old(self)@, ticket.terminal_id@) && old(
                self,
            )@.table[ticket.terminal_id@].reader is None {
                None
            } else {
                ticket.reader
            },
    {
        let mut table = self.take();
        let ghost before = table;
        let id = ticket.terminal_id;
        let cell: usize = ticket.cell;
        let mut child = ticket.child;
        let mut reader = ticket.reader;
        let ghost child_held = child;
        let ghost reader_held = reader;
        if let Some(i) = table.find(id.as_str()) {
            let own_cell: usize = table.entries[i].1.cell;
            assert(table@.cell(id@) == table.cells@[own_cell as int]@);
            if table.cells[own_cell].exit_status.is_none() {
                let state = &mut table.entries[i].1;
                if state.child.is_none() {
                    state.child = child.take();
                }
                if state.reader.is_none() {
                    state.reader = reader.take();
                }
                table.cells[cell].cleanup_in_progress = false;
                proof {
                    lemma_table_update(before.entries@, table.entries@, i as int);
                    let after = abandoned(before@, id@, cell as int, child_held, reader_held);
                    assert(table@.cells =~= after.cells);
                    assert(table@.table =~= after.table);
                }
            }
        }
        self.table = table;
        (child, reader)
    }

    /// A process number has been signalled for the last time.
    pub fn clear_terminal_pid_after_cleanup(&mut self, terminal_id: &str, pid: Option<u32>)
        ensures
            final(self)@ == pid_cleared(old(self)@, terminal_id@, pid),
    {
        let pid_seen: u32 = match pid {
            Some(pid) => pid,
            None => return ,
        };
        let mut table = self.take();
        let ghost before = table;
        if let Some(i) = table.find(terminal_id) {
            if let Some(own) = table.entries[i].1.pid {
                if own == pid_seen {
                    table.entries[i].1.pid = None;
                    proof {
                        lemma_table_update(before.entries@, table.entries@, i as int);
                        assert(table@.table =~= pid_cleared(before@, terminal_id@, pid).table);
                    }
                }
            }
        }
        self.table = table;
    }

    /// Captures a chunk of a terminal's output.
    pub fn append_output(&mut self, cell: usize, chunk: &[u8])
        ensures
            final(self)@ == output_appended(old(self)@, cell as int, chunk@),
    {
        let mut table = self.take();
        let ghost before = table;
        let ghost after = output_appended(before@, cell as int, chunk@);
        let mut i: usize = 0;
        while i < table.entries.len()
            invariant
                i <= table.entries@.len(),
                table == before,
                before == old(self).table,
                before.well_formed(),
                after == output_appended(before@, cell as int, chunk@),
                forall|j: int| 0 <= j < i ==> (#[trigger] table.entries@[j]).1.cell != cell,
            decreases table.entries@.len() - i,
        {
            if table.entries[i].1.cell == cell {
                let state = &mut table.entries[i].1;
                let limit = state.output_byte_limit;
                append_terminal_output(
                    &mut state.output,
                    &mut state.output_truncated,
                    chunk,
                    limit,
                );
                proof {
                    lemma_table_update(before.entries@, table.entries@, i as int);
                    lemma_table_lookup(before.entries@, i as int);
                    let id = before.entries@[i as int].0@;
                    assert(table.entries@[i as int].1@ =~= entry_appended(
                        before.entries@[i as int].1@,
                        chunk@,
                    ));
                    assert forall|other: Seq<char>|
                        before@.table.contains_key(other) && other
                            != id implies #[trigger] before@.table[other].cell != cell by {
                        let j = choose|j: int| named(before.entries@, j, other);
                        assert(named(before.entries@, j, other));
                        lemma_table_lookup(before.entries@, j);
                        if j < i {
                            assert(before.entries@[j].1.cell != before.entries@[i as int].1.cell);
                        } else {
                            assert(before.entries@[i as int].1.cell != before.entries@[j].1.cell);
                        }
                    }
                    assert(table@.table =~= after.table);
                }
                self.table = table;
                return ;
            }
            i = i + 1;
        }
        proof {
            assert forall|other: Seq<char>|
                before@.table.contains_key(other) implies #[trigger] before@.table[other].cell
                != cell by {
                let j = choose|j: int| named(before.entries@, j, other);
                assert(named(before.entries@, j, other));
                lemma_table_lookup(before.entries@, j);
            }
            assert(before@.table =~= after.table);
        }
        self.table = table;
    }

    /// Answers a request for a terminal's output.
    pub fn terminal_output(&self, terminal_id: &str) -> (answer: Result<TerminalOutput, AcpError>)
        ensures
            match answer {
                Err(error) => !self@.has(terminal_id@) && error@ == unknown_terminal(
                    terminal_id@,
                ),
                Ok(answer) => self@.has(terminal_id@) && answer.output@ == shown_output(
                    self@.table[terminal_id@],
                ) && answer.truncated == shown_truncated(self@.table[terminal_id@]) && status_view(
                    answer.exit_status,
                ) == self@.cell(terminal_id@).exit_status && (
                self@.table[terminal_id@].output_byte_limit is None && valid_utf8(
                    self@.table[terminal_id@].output,
                ) ==> answer.output@ == decode_utf8(self@.table[terminal_id@].output)),
            },
    {
        proof {
            use_type_invariant(self);
        }
        let i: usize = match self.table.find(terminal_id) {
            Some(i) => i,
            None => return Err(AcpError::unknown_terminal(terminal_id)),
        };
        let state = &self.table.entries[i].1;
        assert(self@.cell(terminal_id@) == self.table.cells@[state.cell as int]@);
        let (output, bounded_by_limit) = match state.output_byte_limit {
            Some(limit) => {
                let limit: usize = byte_count(limit);
                (
                    render_utf8_suffix_with_byte_limit(state.output.as_slice(), limit),
                    state.output.len() > limit,
                )
            },
            None => (from_utf8_lossy(state.output.as_slice()), false),
        };
        let exit_status = self.published_status(state.cell);
        Ok(
            TerminalOutput {
                output,
                truncated: state.output_truncated || bounded_by_limit,
                exit_status,
            },
        )
    }

    /// Takes all terminals out of the table, at the end of the session.
    pub fn drain(&mut self) -> (all: Vec<TerminalState<C, R>>)
        ensures
            final(self)@ == drained(old(self)@),
            forall|id: Seq<char>|
                old(self)@.has(id) ==> exists|i: int|
                    0 <= i < all@.len() && (#[trigger] all@[i])@ == old(self)@.table[id],
            forall|i: int| 0 <= i < all@.len() ==> old(self)@.holds((#[trigger] all@[i])@),
            forall|i: int, j: int|
                0 <= i < j < all@.len() ==> (#[trigger] all@[i]).cell != (#[trigger] all@[j]).cell,
    {
        let mut table = self.take();
        let ghost before = table;
        let mut all: Vec<TerminalState<C, R>> = Vec::new();
        assert(table.entries@.take(table.entries@.len() as int) =~= table.entries@);
        while table.entries.len() > 0
            invariant
                before.well_formed(),
                table.cells == before.cells,
                table.entries@.len() + all@.len() == before.entries@.len(),
                table.entries@ == before.entries@.take(table.entries@.len() as int),
                forall|i: int|
                    0 <= i < all@.len() ==> #[trigger] all@[i]
                        == before.entries@[before.entries@.len() - 1 - i].1,
            decreases table.entries@.len(),
        {
            if let Some((_, state)) = table.entries.pop() {
                all.push(state);
            }
        }
        proof {
            lemma_drained(before, all@);
            assert(table@.table =~= Map::empty());
        }
        self.table = table;
        all
    }
}

proof fn lemma_drained<C, R>(before: TerminalTable<C, R>, all: Seq<TerminalState<C, R>>)
    requires
        before.well_formed(),
        all.len() == before.entries@.len(),
        forall|i: int|
            0 <= i < all.len() ==> #[trigger] all[i] == before.entries@[all.len() - 1 - i].1,
    ensures
        forall|id: Seq<char>|
            before@.has(id) ==> exists|i: int|
                0 <= i < all.len() && (#[trigger] all[i])@ == before@.table[id],
        forall|i: int| 0 <= i < all.len() ==> before@.holds((#[trigger] all[i])@),
        forall|i: int, j: int|
            0 <= i < j < all.len() ==> (#[trigger] all[i]).cell != (#[trigger] all[j]).cell,
{
    let n = all.len() as int;
    assert forall|id: Seq<char>| before@.has(id) implies exists|i: int|
        0 <= i < all.len() && (#[trigger] all[i])@ == before@.table[id] by {
        let j = choose|j: int| named(before.entries@, j, id);
        assert(named(before.entries@, j, id));
        lemma_table_lookup(before.entries@, j);
        assert(all[n - 1 - j]@ == before@.table[id]);
    }
    assert forall|i: int| 0 <= i < all.len() implies before@.holds((#[trigger] all[i])@) by {
        lemma_table_lookup(before.entries@, n - 1 - i);
        assert(before@.has(before.entries@[n - 1 - i].0@));
    }
    assert forall|i: int, j: int| 0 <= i < j < all.len() implies (#[trigger] all[i]).cell != (
    #[trigger] all[j]).cell by {
        assert(before.entries@[n - 1 - j].1.cell != before.entries@[n - 1 - i].1.cell);
    }
}

} // verus!
