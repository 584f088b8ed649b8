//! Errors that the launcher reports.
use vstd::prelude::*;

verus! {

/// The kind of a reported error, with the subject it concerns.
#[derive(Debug)]
pub enum SherlockErrorType {
    ConfigError(Option<String>),
    CommandExecutionError(String),
    FileParseError(String),
    FileExistError(String),
    FileReadError(String),
    FileWriteError(String),
    FileRemoveError(String),
    DirCreateError(String),
    DirRemoveError(String),
    SocketConnectError(String),
    SocketWriteError(String),
    SocketRemoveError(String),
    UnsupportedBrowser(String),
    EnvVarNotFoundError(String),
    MissingIconParser(String),
    ResourceLookupError(String),
    HttpRequestError(String),
    DebugError(String),
    ClipboardError,
    SqlConnectionError,
    FlagLoadError,
    SerializationError,
    DeserializationError,
}

/// An error and the detail that explains it.
#[derive(Debug)]
pub struct SherlockError {
    pub error: SherlockErrorType,
    pub traceback: String,
}

} // verus!
