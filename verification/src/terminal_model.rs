//! What the terminals of a session are, and what each step does to them.

use crate::exit_status::ExitView;
use crate::output::{dropped, rendered, retained};
use crate::text::{decimal, lossy_text};
use vstd::prelude::*;

verus! {

/// The name of a terminal whose command has the given process number.
pub open spec fn terminal_name(pid: Option<u32>) -> Seq<char> {
    "term-"@ + decimal(
        match pid {
            Some(pid) => pid as nat,
            None => 0,
        },
    )
}

/// A terminal in the table, by its content.
#[verifier::ext_equal]
pub struct EntryModel<C, R> {
    pub child: Option<C>,
    pub pid: Option<u32>,
    pub output: Seq<u8>,
    pub output_truncated: bool,
    pub output_byte_limit: Option<u64>,
    pub reader: Option<R>,
    pub cell: int,
}

/// What those who hold a terminal share. It outlives the terminal's place in the
/// table, so that one who waits learns the status of a terminal that is gone.
#[verifier::ext_equal]
pub struct CellModel {
    pub exit_status: Option<ExitView>,
    pub pending_exit_status: Option<ExitView>,
    pub cleanup_in_progress: bool,
    pub release_requested: bool,
}

/// All terminals of a session, by their content.
#[verifier::ext_equal]
pub struct TerminalsModel<C, R> {
    pub table: Map<Seq<char>, EntryModel<C, R>>,
    pub cells: Seq<CellModel>,
}

impl<C, R> TerminalsModel<C, R> {
    /// Whether a terminal is in the table.
    pub open spec fn has(self, id: Seq<char>) -> bool {
        self.table.contains_key(id)
    }

    /// Whether some terminal in the table is the given one.
    pub open spec fn holds(self, entry: EntryModel<C, R>) -> bool {
        exists|id: Seq<char>| #[trigger] self.has(id) && self.table[id] == entry
    }

    /// What is shared of a terminal in the table.
    pub open spec fn cell(self, id: Seq<char>) -> CellModel {
        self.cells[self.table[id].cell]
    }

    pub open spec fn with_entry(self, id: Seq<char>, entry: EntryModel<C, R>) -> Self {
        TerminalsModel { table: self.table.insert(id, entry), cells: self.cells }
    }

    pub open spec fn with_cell(self, cell: int, value: CellModel) -> Self {
        TerminalsModel { table: self.table, cells: self.cells.update(cell, value) }
    }

    pub open spec fn without(self, id: Seq<char>) -> Self {
        TerminalsModel { table: self.table.remove(id), cells: self.cells }
    }

    /// The terminals after the reader of one, and its child where asked for, have
    /// been handed to an owner.
    pub open spec fn handed_out(self, id: Seq<char>, child_too: bool) -> Self {
        let entry = self.table[id];
        self.with_entry(
            id,
            EntryModel {
                child: if child_too {
                    None
                } else {
                    entry.child
                },
                reader: None,
                ..entry
            },
        ).with_cell(entry.cell, CellModel { cleanup_in_progress: true, ..self.cell(id) })
    }
}

/// What one who waits for a terminal is told to do.
pub enum WaitDecision {
    /// The terminal is not in the table.
    Unknown,
    /// The status is known.
    Done(ExitView),
    /// Another one is cleaning up and will publish the status.
    AwaitExisting,
    /// The child has ended, but the cleaning up was given up: do it.
    Finalize(ExitView),
    /// Wait for the child.
    AwaitChild,
}

pub open spec fn wait_decision<C, R>(m: TerminalsModel<C, R>, id: Seq<char>) -> WaitDecision {
    if !m.has(id) {
        WaitDecision::Unknown
    } else if let Some(status) = m.cell(id).exit_status {
        WaitDecision::Done(status)
    } else if let Some(status) = m.cell(id).pending_exit_status {
        if m.cell(id).cleanup_in_progress {
            WaitDecision::AwaitExisting
        } else {
            WaitDecision::Finalize(status)
        }
    } else if m.table[id].child is Some {
        WaitDecision::AwaitChild
    } else {
        WaitDecision::AwaitExisting
    }
}

/// The terminals after one has asked to wait.
pub open spec fn after_wait<C, R>(m: TerminalsModel<C, R>, id: Seq<char>) -> TerminalsModel<C, R> {
    match wait_decision(m, id) {
        WaitDecision::Finalize(_) => m.handed_out(id, false),
        WaitDecision::AwaitChild => m.handed_out(id, true),
        _ => m,
    }
}

/// What one who kills a terminal is told to do.
pub enum KillDecision {
    /// The terminal is not in the table.
    Unknown,
    /// The command has ended.
    Done,
    /// Another one has the handles: send the signals only.
    SignalOnly,
    /// Send the signals and clean up.
    Cleanup,
}

pub open spec fn kill_decision<C, R>(m: TerminalsModel<C, R>, id: Seq<char>) -> KillDecision {
    if !m.has(id) {
        KillDecision::Unknown
    } else if m.cell(id).exit_status is Some {
        KillDecision::Done
    } else if m.cell(id).cleanup_in_progress {
        KillDecision::SignalOnly
    } else if m.cell(id).pending_exit_status is Some || m.table[id].child is Some {
        KillDecision::Cleanup
    } else {
        KillDecision::SignalOnly
    }
}

/// The terminals after one has asked to kill.
pub open spec fn after_kill<C, R>(m: TerminalsModel<C, R>, id: Seq<char>) -> TerminalsModel<C, R> {
    match kill_decision(m, id) {
        KillDecision::Cleanup => m.handed_out(id, true),
        _ => m,
    }
}

/// What one who releases a terminal is told to do.
pub enum ReleaseDecision {
    /// The terminal is not in the table.
    Missing,
    /// Another one is cleaning up: send the signals, and ask again.
    Wait,
    /// Nothing is left to clean up, and the terminal is out of the table.
    Remove,
    /// Send the signals and clean up.
    Cleanup,
}

pub open spec fn release_decision<C, R>(
    m: TerminalsModel<C, R>,
    id: Seq<char>,
) -> ReleaseDecision {
    if !m.has(id) {
        ReleaseDecision::Missing
    } else if m.cell(id).cleanup_in_progress {
        ReleaseDecision::Wait
    } else if m.table[id].child is None && m.table[id].reader is None {
        if m.cell(id).exit_status is Some || m.cell(id).pending_exit_status is Some {
            ReleaseDecision::Remove
        } else {
            ReleaseDecision::Wait
        }
    } else {
        ReleaseDecision::Cleanup
    }
}

/// The terminals with the mark that one is to leave the table.
pub open spec fn release_marked<C, R>(
    m: TerminalsModel<C, R>,
    id: Seq<char>,
) -> TerminalsModel<C, R> {
    m.with_cell(m.table[id].cell, CellModel { release_requested: true, ..m.cell(id) })
}

/// The terminals after one has asked to release.
pub open spec fn after_release<C, R>(
    m: TerminalsModel<C, R>,
    id: Seq<char>,
) -> TerminalsModel<C, R> {
    match release_decision(m, id) {
        ReleaseDecision::Missing => m,
        ReleaseDecision::Wait => release_marked(m, id),
        ReleaseDecision::Remove => release_marked(m, id).without(id),
        ReleaseDecision::Cleanup => release_marked(m, id).handed_out(id, true),
    }
}

/// The terminals after one who waited saw the child end.
pub open spec fn exit_noted<C, R>(
    m: TerminalsModel<C, R>,
    cell: int,
    status: ExitView,
) -> TerminalsModel<C, R> {
    m.with_cell(
        cell,
        CellModel {
            pending_exit_status: Some(status),
            cleanup_in_progress: true,
            ..m.cells[cell]
        },
    )
}

/// The terminals after one who kills saw the child end, or failed to see how.
pub open spec fn kill_noted<C, R>(
    m: TerminalsModel<C, R>,
    cell: int,
    status: Option<ExitView>,
) -> TerminalsModel<C, R> {
    m.with_cell(
        cell,
        CellModel {
            pending_exit_status: if status is Some {
                status
            } else if m.cells[cell].pending_exit_status is None && m.cells[cell].exit_status
                is None {
                Some(ExitView { exit_code: None, signal: None })
            } else {
                m.cells[cell].pending_exit_status
            },
            ..m.cells[cell]
        },
    )
}

/// The terminals after one who releases saw the child end, or failed to see how.
pub open spec fn release_noted<C, R>(
    m: TerminalsModel<C, R>,
    cell: int,
    status: Option<ExitView>,
) -> TerminalsModel<C, R> {
    m.with_cell(
        cell,
        CellModel {
            pending_exit_status: if status is Some {
                status
            } else {
                m.cells[cell].pending_exit_status
            },
            ..m.cells[cell]
        },
    )
}

/// The terminals after one who waited has cleaned up.
pub open spec fn wait_finished<C, R>(
    m: TerminalsModel<C, R>,
    id: Seq<char>,
    cell: int,
    status: ExitView,
) -> TerminalsModel<C, R> {
    let published = m.with_cell(
        cell,
        CellModel {
            exit_status: Some(status),
            pending_exit_status: None,
            cleanup_in_progress: false,
            ..m.cells[cell]
        },
    );
    if m.cells[cell].release_requested {
        published.without(id)
    } else {
        published
    }
}

/// The terminals with the status that was pending published.
pub open spec fn pending_published<C, R>(
    m: TerminalsModel<C, R>,
    cell: int,
) -> TerminalsModel<C, R> {
    m.with_cell(
        cell,
        CellModel {
            exit_status: if m.cells[cell].pending_exit_status is Some {
                m.cells[cell].pending_exit_status
            } else {
                m.cells[cell].exit_status
            },
            pending_exit_status: None,
            cleanup_in_progress: false,
            ..m.cells[cell]
        },
    )
}

/// The terminals after one who killed has cleaned up.
pub open spec fn kill_finished<C, R>(
    m: TerminalsModel<C, R>,
    id: Seq<char>,
    cell: int,
) -> TerminalsModel<C, R> {
    if m.cells[cell].release_requested {
        pending_published(m, cell).without(id)
    } else {
        pending_published(m, cell)
    }
}

/// The terminals after one who releases has cleaned up.
pub open spec fn release_finished<C, R>(
    m: TerminalsModel<C, R>,
    id: Seq<char>,
    cell: int,
) -> TerminalsModel<C, R> {
    pending_published(m, cell).without(id)
}

/// Whether an owner that gives up finds a terminal to hand its handles back to.
pub open spec fn takes_back<C, R>(m: TerminalsModel<C, R>, id: Seq<char>) -> bool {
    m.has(id) && m.cell(id).exit_status is None
}

/// The terminals after an owner has given up. Handles go back where there is room
/// for them, and the terminal is free to be cleaned up by another.
pub open spec fn abandoned<C, R>(
    m: TerminalsModel<C, R>,
    id: Seq<char>,
    cell: int,
    child: Option<C>,
    reader: Option<R>,
) -> TerminalsModel<C, R> {
    if takes_back(m, id) {
        let entry = m.table[id];
        m.with_entry(
            id,
            EntryModel {
                child: if entry.child is None {
                    child
                } else {
                    entry.child
                },
                reader: if entry.reader is None {
                    reader
                } else {
                    entry.reader
                },
                ..entry
            },
        ).with_cell(cell, CellModel { cleanup_in_progress: false, ..m.cells[cell] })
    } else {
        m
    }
}

/// The terminals after a process number is no longer to be signalled.
pub open spec fn pid_cleared<C, R>(
    m: TerminalsModel<C, R>,
    id: Seq<char>,
    pid: Option<u32>,
) -> TerminalsModel<C, R> {
    if pid is Some && m.has(id) && m.table[id].pid == pid {
        m.with_entry(id, EntryModel { pid: None, ..m.table[id] })
    } else {
        m
    }
}

/// A terminal that has just been created.
pub open spec fn fresh_entry<C, R>(
    m: TerminalsModel<C, R>,
    child: C,
    pid: Option<u32>,
    limit: Option<u64>,
    reader: R,
) -> EntryModel<C, R> {
    EntryModel {
        child: Some(child),
        pid,
        output: Seq::empty(),
        output_truncated: false,
        output_byte_limit: limit,
        reader: Some(reader),
        cell: m.cells.len() as int,
    }
}

/// The terminals after one has been created.
pub open spec fn created<C, R>(
    m: TerminalsModel<C, R>,
    child: C,
    pid: Option<u32>,
    limit: Option<u64>,
    reader: R,
) -> TerminalsModel<C, R> {
    TerminalsModel {
        table: m.table.insert(terminal_name(pid), fresh_entry(m, child, pid, limit, reader)),
        cells: m.cells.push(
            CellModel {
                exit_status: None,
                pending_exit_status: None,
                cleanup_in_progress: false,
                release_requested: false,
            },
        ),
    }
}

/// A terminal after a chunk of its output has been captured.
pub open spec fn entry_appended<C, R>(entry: EntryModel<C, R>, chunk: Seq<u8>) -> EntryModel<C, R> {
    EntryModel {
        output: retained(entry.output + chunk, entry.output_byte_limit),
        output_truncated: entry.output_truncated || dropped(
            entry.output + chunk,
            entry.output_byte_limit,
        ),
        ..entry
    }
}

/// The terminals after a chunk of output has been captured. Output of a terminal
/// that has left the table is lost.
pub open spec fn output_appended<C, R>(
    m: TerminalsModel<C, R>,
    cell: int,
    chunk: Seq<u8>,
) -> TerminalsModel<C, R> {
    TerminalsModel {
        table: m.table.map_values(
            |entry: EntryModel<C, R>|
                if entry.cell == cell {
                    entry_appended(entry, chunk)
                } else {
                    entry
                },
        ),
        cells: m.cells,
    }
}

/// The terminals after all of them have been taken out of the table. What is shared of
/// them is kept for those who still hold it.
pub open spec fn drained<C, R>(m: TerminalsModel<C, R>) -> TerminalsModel<C, R> {
    TerminalsModel { table: Map::empty(), cells: m.cells }
}

/// A byte limit as far as a length in memory goes.
pub open spec fn in_memory(limit: u64) -> int {
    if limit > usize::MAX {
        usize::MAX as int
    } else {
        limit as int
    }
}

/// What is shown of a terminal's output.
pub open spec fn shown_output<C, R>(entry: EntryModel<C, R>) -> Seq<char> {
    match entry.output_byte_limit {
        Some(limit) => rendered(entry.output, in_memory(limit)),
        None => lossy_text(entry.output),
    }
}

/// Whether a terminal's output is shown as truncated.
pub open spec fn shown_truncated<C, R>(entry: EntryModel<C, R>) -> bool {
    entry.output_truncated || (entry.output_byte_limit matches Some(limit) && entry.output.len()
        > limit)
}

} // verus!
