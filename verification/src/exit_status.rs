//! How a terminal's command ended.

use crate::text::{signed_decimal, signed_decimal_text};
use vstd::prelude::*;

verus! {

/// How a command ended, by its content.
pub struct ExitView {
    pub exit_code: Option<u32>,
    pub signal: Option<Seq<char>>,
}

/// How a command ended: with an exit code, or by a signal. With neither, all that
/// is known is that it ended.
#[derive(Debug)]
pub struct TerminalExitStatus {
    pub exit_code: Option<u32>,
    pub signal: Option<String>,
}

impl TerminalExitStatus {
    pub open spec fn view(self) -> ExitView {
        ExitView {
            exit_code: self.exit_code,
            signal: match self.signal {
                Some(name) => Some(name@),
                None => None,
            },
        }
    }

    /// The status of a command of which nothing but its end is known.
    pub fn new() -> (status: TerminalExitStatus)
        ensures
            status@ == (ExitView { exit_code: None, signal: None }),
    {
        TerminalExitStatus { exit_code: None, signal: None }
    }
}

impl Clone for TerminalExitStatus {
    fn clone(&self) -> (copy: TerminalExitStatus)
        ensures
            copy@ == self@,
    {
        TerminalExitStatus {
            exit_code: self.exit_code,
            signal: match &self.signal {
                Some(name) => Some(name.clone()),
                None => None,
            },
        }
    }
}

/// An optional status, by its content.
pub open spec fn status_view(status: Option<TerminalExitStatus>) -> Option<ExitView> {
    match status {
        Some(status) => Some(status@),
        None => None,
    }
}

/// An optional text, by its content.
pub open spec fn text_view(text: Option<String>) -> Option<Seq<char>> {
    match text {
        Some(text) => Some(text@),
        None => None,
    }
}

/// The names of the signals that have the same number on every Unix system.
pub open spec fn common_signal(number: i32) -> Option<Seq<char>> {
    if number == 1 {
        Some("SIGHUP"@)
    } else if number == 2 {
        Some("SIGINT"@)
    } else if number == 3 {
        Some("SIGQUIT"@)
    } else if number == 4 {
        Some("SIGILL"@)
    } else if number == 6 {
        Some("SIGABRT"@)
    } else if number == 8 {
        Some("SIGFPE"@)
    } else if number == 9 {
        Some("SIGKILL"@)
    } else if number == 11 {
        Some("SIGSEGV"@)
    } else if number == 14 {
        Some("SIGALRM"@)
    } else if number == 15 {
        Some("SIGTERM"@)
    } else {
        None
    }
}

/// The status of a command, given what the system reports and the name that the
/// reported signal has, if any. The code keeps its 32 bits, read without a sign. A
/// signal without a name is given by its number.
pub open spec fn reported_status(
    code: Option<i32>,
    signal: Option<i32>,
    name: Option<Seq<char>>,
) -> ExitView {
    ExitView {
        exit_code: match code {
            Some(code) => Some(
                if code < 0 {
                    (code + 0x1_0000_0000) as u32
                } else {
                    code as u32
                },
            ),
            None => None,
        },
        signal: match signal {
            Some(number) => Some(
                match name {
                    Some(name) => name,
                    None => signed_decimal(number as int),
                },
            ),
            None => None,
        },
    }
}

/// `nix::sys::signal::Signal::try_from`, and the `Debug` form of what it gives: the
/// name of a signal that the system has, and nothing for a number that it has not.
/// Which numbers have names differs between systems; the ten that are the same on
/// all of them are given, and that a name starts with `SIG`.
#[verifier::external_body]
fn signal_name(number: i32) -> (name: Option<String>)
    ensures
        common_signal(number) is Some ==> text_view(name) == common_signal(number),
        name matches Some(text) ==> "SIG"@.is_prefix_of(text@),
{
    let signal = nix::sys::signal::Signal::try_from(number).ok()?;
    Some(format!("{signal:?}"))
}

/// The status of a command, given the name of the signal that ended it, if any.
pub fn exit_status_with_name(
    code: Option<i32>,
    signal: Option<i32>,
    name: Option<String>,
) -> (status: TerminalExitStatus)
    ensures
        status@ == reported_status(code, signal, text_view(name)),
{
    let exit_code: Option<u32> = match code {
        Some(code) => Some(unsigned_bits(code)),
        None => None,
    };
    let signal: Option<String> = match signal {
        Some(number) => Some(
            match name {
                Some(name) => name,
                None => signed_decimal_text(number as i64),
            },
        ),
        None => None,
    };
    TerminalExitStatus { exit_code, signal }
}

/// The 32 bits of a number, read without a sign.
fn unsigned_bits(n: i32) -> (bits: u32)
    ensures
        bits == if n < 0 {
            n + 0x1_0000_0000
        } else {
            n as int
        },
{
    if n < 0 {
        (n as i64 + 0x1_0000_0000) as u32
    } else {
        n as u32
    }
}

/// The status of a command, given the exit code and the signal that the system
/// reports.
pub fn terminal_exit_status(code: Option<i32>, signal: Option<i32>) -> (status: TerminalExitStatus)
    ensures
        exists|name: Option<Seq<char>>| #[trigger]
            reported_status(code, signal, name) == status@ && (name matches Some(text)
                ==> "SIG"@.is_prefix_of(text)),
        status@.exit_code == reported_status(code, signal, None).exit_code,
        signal is None ==> status@.signal is None,
        signal matches Some(number) ==> status@.signal is Some && (common_signal(number) is Some
            ==> status@.signal == common_signal(number)),
{
    let name = match signal {
        Some(number) => signal_name(number),
        None => None,
    };
    let ghost shown = text_view(name);
    let status = exit_status_with_name(code, signal, name);
    assert(reported_status(code, signal, shown) == status@);
    status
}

/// The status of a command keeps the exit code, by its 32 bits, and the name of the
/// signal that ended it, or its number where it has no name. What is not reported is not
/// made up.
pub proof fn law_status_keeps_what_is_reported(
    code: Option<i32>,
    signal: Option<i32>,
    name: Option<Seq<char>>,
)
    ensures
        code is None <==> reported_status(code, signal, name).exit_code is None,
        code matches Some(c) ==> c >= 0 ==> reported_status(code, signal, name).exit_code == Some(
            c as u32,
        ),
        code matches Some(c) ==> c < 0 ==> (reported_status(code, signal, name).exit_code matches
        Some(kept) && kept as int == c + 0x1_0000_0000),
        signal is None <==> reported_status(code, signal, name).signal is None,
        signal is Some && name is Some ==> reported_status(code, signal, name).signal == name,
        signal matches Some(number) ==> name is None ==> reported_status(code, signal, name).signal
            == Some(signed_decimal(number as int)),
{
}

/// The signals by which commands are commonly ended have their names.
pub proof fn law_common_signals_have_their_names(number: i32)
    ensures
        number == 1 ==> common_signal(number) == Some("SIGHUP"@),
        number == 2 ==> common_signal(number) == Some("SIGINT"@),
        number == 3 ==> common_signal(number) == Some("SIGQUIT"@),
        number == 4 ==> common_signal(number) == Some("SIGILL"@),
        number == 6 ==> common_signal(number) == Some("SIGABRT"@),
        number == 8 ==> common_signal(number) == Some("SIGFPE"@),
        number == 9 ==> common_signal(number) == Some("SIGKILL"@),
        number == 11 ==> common_signal(number) == Some("SIGSEGV"@),
        number == 14 ==> common_signal(number) == Some("SIGALRM"@),
        number == 15 ==> common_signal(number) == Some("SIGTERM"@),
        number <= 0 || number > 15 ==> common_signal(number) is None,
{
}

/// A status is what it holds, and a missing one is missing.
pub proof fn law_status_is_what_it_holds(status: TerminalExitStatus, text: String)
    ensures
        status_view(Some(status)) == Some(status@),
        status_view(None) is None,
        status@.exit_code == status.exit_code,
        status.signal == Some(text) ==> status@.signal == Some(text@),
        status.signal is None ==> status@.signal is None,
        text_view(Some(text)) == Some(text@),
        text_view(None) is None,
{
}

} // verus!
