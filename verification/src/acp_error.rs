//! The errors that an agent's requests are answered with.

use vstd::prelude::*;
use vstd::string::StringExecFns;

verus! {

/// What kind of error a request is answered with.
#[derive(Clone, Copy, Debug, PartialEq, Eq, Structural)]
pub enum AcpErrorCode {
    InvalidParams,
    InternalError,
}

/// The error that a request is answered with, by its content.
pub struct AcpErrorView {
    pub code: AcpErrorCode,
    pub message: Seq<char>,
}

/// The error that a request is answered with.
#[derive(Debug)]
pub struct AcpError {
    pub code: AcpErrorCode,
    pub message: String,
}

impl AcpError {
    pub open spec fn view(self) -> AcpErrorView {
        AcpErrorView { code: self.code, message: self.message@ }
    }

    /// The answer to a request for a terminal that is not in the table.
    pub fn unknown_terminal(terminal_id: &str) -> (error: AcpError)
        ensures
            error@ == unknown_terminal(terminal_id@),
    {
        let mut message = "unknown terminal: ".to_owned();
        message.append(terminal_id);
        AcpError { code: AcpErrorCode::InvalidParams, message }
    }

    /// The answer where waiting for a child fails.
    pub fn wait_failed(reason: &str) -> (error: AcpError)
        ensures
            error@ == wait_failed(reason@),
    {
        let mut message = "wait failed: ".to_owned();
        message.append(reason);
        AcpError { code: AcpErrorCode::InternalError, message }
    }

    /// The answer where a command cannot be started.
    pub fn spawn_failed(reason: &str) -> (error: AcpError)
        ensures
            error@ == (AcpErrorView {
                code: AcpErrorCode::InternalError,
                message: "spawn failed: "@ + reason@,
            }),
    {
        let mut message = "spawn failed: ".to_owned();
        message.append(reason);
        AcpError { code: AcpErrorCode::InternalError, message }
    }
}

/// The answer to a request for a terminal that is not in the table.
pub open spec fn unknown_terminal(terminal_id: Seq<char>) -> AcpErrorView {
    AcpErrorView {
        code: AcpErrorCode::InvalidParams,
        message: "unknown terminal: "@ + terminal_id,
    }
}

/// The answer where waiting for a child fails.
pub open spec fn wait_failed(reason: Seq<char>) -> AcpErrorView {
    AcpErrorView { code: AcpErrorCode::InternalError, message: "wait failed: "@ + reason }
}

/// An error is what it holds.
pub proof fn law_error_is_what_it_holds(error: AcpError)
    ensures
        error@.code == error.code,
        error@.message == error.message@,
{
}

} // verus!
