//! The terminal of a session.

use vstd::prelude::*;
use crate::text::concat;

verus! {

/// An error of the terminal.
#[derive(Debug, Clone)]
pub enum TerminalError {
    Pty(String),
    NotFound(String),
    /// An error of the operating system, by its text.
    Io(String),
    AlreadyRunning(String),
}

impl TerminalError {
    /// The text of the error.
    pub open spec fn message_of(&self) -> Seq<char> {
        match *self {
            TerminalError::Pty(detail) => "PTY error: "@ + detail@,
            TerminalError::NotFound(id) => "Terminal not found: "@ + id@,
            TerminalError::Io(detail) => "IO error: "@ + detail@,
            TerminalError::AlreadyRunning(id) => "Terminal already running: "@ + id@,
        }
    }

    /// The text of the error.
    pub fn message(&self) -> (text: String)
        ensures
            text@ == self.message_of(),
    {
        match self {
            TerminalError::Pty(detail) => concat("PTY error: ", detail.as_str()),
            TerminalError::NotFound(id) => concat("Terminal not found: ", id.as_str()),
            TerminalError::Io(detail) => concat("IO error: ", detail.as_str()),
            TerminalError::AlreadyRunning(id) => concat("Terminal already running: ", id.as_str()),
        }
    }
}

/// How a terminal is started.
#[derive(Debug, Clone)]
pub struct TerminalConfig {
    pub session_id: String,
    pub working_dir: String,
    pub command: Option<String>,
    pub args: Option<Vec<String>>,
    pub cols: u16,
    pub rows: u16,
}

/// A terminal that was started.
#[derive(Debug, Clone)]
pub struct TerminalState {
    pub session_id: String,
    pub pid: u32,
    pub running: bool,
}

} // verus!
