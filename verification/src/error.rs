//! The failures that the gateway reports.

use vstd::prelude::*;
use crate::text::joined;

verus! {

/// A failure, with the text that says what went wrong.
#[derive(Clone, Debug, PartialEq, Eq)]
pub enum AppError {
    /// The configuration cannot be used.
    Config(String),
    /// Reading or writing failed.
    Io(String),
    /// A message broke the protocol.
    McpProtocol(String),
    /// A backend process could not be started.
    ChildProcess(String),
    /// The log level or the log sink cannot be set up.
    Logging(String),
    /// No backend could be brought up.
    Initialization(String),
    /// No tool of the given name is in the catalog.
    ToolNotFound(String),
    /// A text is not the JSON that was expected.
    Json(String),
    /// The named backend refused the handshake.
    Handshake(String),
    /// The named backend refused the discovery of its tools, or answered
    /// it with no list of tools.
    Discovery(String),
    /// The named backend did not answer in time.
    Timeout(String),
    /// The named backend is gone, or takes no calls.
    BackendUnavailable(String),
    /// Any other failure.
    Other(String),
}

/// The kinds of failure.
#[derive(Clone, Copy, Debug, PartialEq, Eq)]
pub enum ErrorKind {
    Config,
    Io,
    McpProtocol,
    ChildProcess,
    Logging,
    Initialization,
    ToolNotFound,
    Json,
    Handshake,
    Discovery,
    Timeout,
    BackendUnavailable,
    Other,
}

/// What the message of a failure starts with, by its kind.
pub open spec fn heading(kind: ErrorKind) -> Seq<char> {
    match kind {
        ErrorKind::Config => "Configuration Error: "@,
        ErrorKind::Io => "IO Error: "@,
        ErrorKind::McpProtocol => "MCP Protocol Error: "@,
        ErrorKind::ChildProcess => "Child Process Error: "@,
        ErrorKind::Logging => "Logging Setup Error: "@,
        ErrorKind::Initialization => "Initialization Error: "@,
        ErrorKind::ToolNotFound => "Tool Not Found: "@,
        ErrorKind::Json => "JSON Parse Error: "@,
        ErrorKind::Handshake => "Handshake Error: "@,
        ErrorKind::Discovery => "Discovery Error: "@,
        ErrorKind::Timeout => "Timeout: "@,
        ErrorKind::BackendUnavailable => "Backend Unavailable: "@,
        ErrorKind::Other => ""@,
    }
}

impl AppError {
    /// The kind of the failure.
    pub open spec fn sort(self) -> ErrorKind {
        match self {
            AppError::Config(_) => ErrorKind::Config,
            AppError::Io(_) => ErrorKind::Io,
            AppError::McpProtocol(_) => ErrorKind::McpProtocol,
            AppError::ChildProcess(_) => ErrorKind::ChildProcess,
            AppError::Logging(_) => ErrorKind::Logging,
            AppError::Initialization(_) => ErrorKind::Initialization,
            AppError::ToolNotFound(_) => ErrorKind::ToolNotFound,
            AppError::Json(_) => ErrorKind::Json,
            AppError::Handshake(_) => ErrorKind::Handshake,
            AppError::Discovery(_) => ErrorKind::Discovery,
            AppError::Timeout(_) => ErrorKind::Timeout,
            AppError::BackendUnavailable(_) => ErrorKind::BackendUnavailable,
            AppError::Other(_) => ErrorKind::Other,
        }
    }

    /// The text that the failure carries.
    pub open spec fn detail(self) -> Seq<char> {
        match self {
            AppError::Config(s) => s@,
            AppError::Io(s) => s@,
            AppError::McpProtocol(s) => s@,
            AppError::ChildProcess(s) => s@,
            AppError::Logging(s) => s@,
            AppError::Initialization(s) => s@,
            AppError::ToolNotFound(s) => s@,
            AppError::Json(s) => s@,
            AppError::Handshake(s) => s@,
            AppError::Discovery(s) => s@,
            AppError::Timeout(s) => s@,
            AppError::BackendUnavailable(s) => s@,
            AppError::Other(s) => s@,
        }
    }

    /// The failure's message: the heading of its kind, then its text.
    pub open spec fn description(self) -> Seq<char> {
        heading(self.sort()) + self.detail()
    }

    /// The kind of the failure.
    pub fn kind(&self) -> (kind: ErrorKind)
        ensures
            kind == self.sort(),
    {
        match self {
            AppError::Config(_) => ErrorKind::Config,
            AppError::Io(_) => ErrorKind::Io,
            AppError::McpProtocol(_) => ErrorKind::McpProtocol,
            AppError::ChildProcess(_) => ErrorKind::ChildProcess,
            AppError::Logging(_) => ErrorKind::Logging,
            AppError::Initialization(_) => ErrorKind::Initialization,
            AppError::ToolNotFound(_) => ErrorKind::ToolNotFound,
            AppError::Json(_) => ErrorKind::Json,
            AppError::Handshake(_) => ErrorKind::Handshake,
            AppError::Discovery(_) => ErrorKind::Discovery,
            AppError::Timeout(_) => ErrorKind::Timeout,
            AppError::BackendUnavailable(_) => ErrorKind::BackendUnavailable,
            AppError::Other(_) => ErrorKind::Other,
        }
    }

    /// The text that the failure carries.
    pub fn text(&self) -> (text: &str)
        ensures
            text@ == self.detail(),
    {
        match self {
            AppError::Config(s) => s.as_str(),
            AppError::Io(s) => s.as_str(),
            AppError::McpProtocol(s) => s.as_str(),
            AppError::ChildProcess(s) => s.as_str(),
            AppError::Logging(s) => s.as_str(),
            AppError::Initialization(s) => s.as_str(),
            AppError::ToolNotFound(s) => s.as_str(),
            AppError::Json(s) => s.as_str(),
            AppError::Handshake(s) => s.as_str(),
            AppError::Discovery(s) => s.as_str(),
            AppError::Timeout(s) => s.as_str(),
            AppError::BackendUnavailable(s) => s.as_str(),
            AppError::Other(s) => s.as_str(),
        }
    }

    /// The failure's message.
    pub fn message(&self) -> (out: String)
        ensures
            out@ == self.description(),
    {
        let start = match self.kind() {
            ErrorKind::Config => "Configuration Error: ",
            ErrorKind::Io => "IO Error: ",
            ErrorKind::McpProtocol => "MCP Protocol Error: ",
            ErrorKind::ChildProcess => "Child Process Error: ",
            ErrorKind::Logging => "Logging Setup Error: ",
            ErrorKind::Initialization => "Initialization Error: ",
            ErrorKind::ToolNotFound => "Tool Not Found: ",
            ErrorKind::Json => "JSON Parse Error: ",
            ErrorKind::Handshake => "Handshake Error: ",
            ErrorKind::Discovery => "Discovery Error: ",
            ErrorKind::Timeout => "Timeout: ",
            ErrorKind::BackendUnavailable => "Backend Unavailable: ",
            ErrorKind::Other => "",
        };
        joined(start, self.text())
    }
}

} // verus!
