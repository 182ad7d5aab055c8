//! The bridge's error type and its host-facing messages.

use vstd::prelude::*;
use crate::text::concat;

verus! {

/// Why a bridge operation failed.
#[derive(Debug)]
pub enum Error {
    /// The runtime was used from a thread other than the one that created it.
    WrongThread,
    /// The runtime has been shut down.
    Shutdown,
    /// `drain` was entered while another `drain` was running.
    ReentrantDrain,
    /// The request was not valid JSON; holds the parser's message.
    Json(String),
    /// The request was well-formed JSON but not acceptable; holds the reason.
    Request(String),
    /// Tauri reported an error; holds its message.
    Tauri(String),
}

/// The text of an error, as the host sees it.
pub open spec fn error_message(e: Error) -> Seq<char> {
    match e {
        Error::WrongThread => "the runtime must be used from the OS thread that created it"@,
        Error::Shutdown => "the runtime has already been shut down"@,
        Error::ReentrantDrain => "drain is already running"@,
        Error::Json(m) => "invalid JSON: "@ + m@,
        Error::Request(m) => "invalid request: "@ + m@,
        Error::Tauri(m) => "Tauri error: "@ + m@,
    }
}

impl Error {
    /// The error's message.
    pub fn message(&self) -> (r: String)
        ensures
            r@ == error_message(*self),
    {
        match self {
            Error::WrongThread => "the runtime must be used from the OS thread that created it".to_owned(),
            Error::Shutdown => "the runtime has already been shut down".to_owned(),
            Error::ReentrantDrain => "drain is already running".to_owned(),
            Error::Json(m) => concat("invalid JSON: ", m.as_str()),
            Error::Request(m) => concat("invalid request: ", m.as_str()),
            Error::Tauri(m) => concat("Tauri error: ", m.as_str()),
        }
    }
}

/// A failure reported to the host as a structured object: the operation that
/// failed, the message, and the paths already known when it failed.
#[derive(Debug)]
pub struct OperationError {
    pub operation: String,
    pub message: String,
    pub executable_path: Option<String>,
    pub shortcut_path: Option<String>,
    pub webview_data_directory: Option<String>,
}

impl OperationError {
    /// An error that names no path.
    pub fn plain(operation: &str, message: &str) -> (r: OperationError)
        ensures
            r.operation@ == operation@,
            r.message@ == message@,
            r.executable_path is None,
            r.shortcut_path is None,
            r.webview_data_directory is None,
    {
        OperationError {
            operation: operation.to_owned(),
            message: message.to_owned(),
            executable_path: None,
            shortcut_path: None,
            webview_data_directory: None,
        }
    }
}

} // verus!
