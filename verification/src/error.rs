//! Error type shared by every engine operation.

use vstd::prelude::*;
use vstd::string::*;

verus! {

/// Engine errors.
#[derive(Debug, Clone)]
pub enum Error {
    /// Backend-specific error (Vulkan, DirectX, ...).
    BackendError(String),
    /// Out of GPU memory.
    OutOfMemory,
    /// Invalid resource (texture, buffer, shader, ...).
    InvalidResource(String),
    /// Initialization failed (engine, device, subsystems).
    InitializationFailed(String),
}

/// Abstract value of an error: its variant and its message as characters.
pub enum ErrorView {
    BackendError(Seq<char>),
    OutOfMemory,
    InvalidResource(Seq<char>),
    InitializationFailed(Seq<char>),
}

impl View for Error {
    type V = ErrorView;

    open spec fn view(&self) -> ErrorView {
        match self {
            Error::BackendError(msg) => ErrorView::BackendError(msg@),
            Error::OutOfMemory => ErrorView::OutOfMemory,
            Error::InvalidResource(msg) => ErrorView::InvalidResource(msg@),
            Error::InitializationFailed(msg) => ErrorView::InitializationFailed(msg@),
        }
    }
}

/// The human-readable rendering of an error, as a sequence of characters.
pub open spec fn error_text(e: Error) -> Seq<char> {
    match e {
        Error::BackendError(msg) => "Backend error: "@ + msg@,
        Error::OutOfMemory => "Out of GPU memory"@,
        Error::InvalidResource(msg) => "Invalid resource: "@ + msg@,
        Error::InitializationFailed(msg) => "Initialization failed: "@ + msg@,
    }
}

impl Error {
    /// Human-readable message: a fixed prefix naming the variant, followed
    /// by the carried message where there is one.
    pub fn to_string(&self) -> (s: String)
        ensures
            s@ == error_text(*self),
    {
        match self {
            Error::BackendError(msg) => {
                let mut s = String::from_str("Backend error: ");
                s.append(msg.as_str());
                s
            },
            Error::OutOfMemory => String::from_str("Out of GPU memory"),
            Error::InvalidResource(msg) => {
                let mut s = String::from_str("Invalid resource: ");
                s.append(msg.as_str());
                s
            },
            Error::InitializationFailed(msg) => {
                let mut s = String::from_str("Initialization failed: ");
                s.append(msg.as_str());
                s
            },
        }
    }
}

/// The line logged for an error the engine returns: the failed
/// initialization's or the backend's message under its own heading, any
/// other error under "Engine error".
pub open spec fn error_log_text(e: Error) -> Seq<char> {
    match e {
        Error::InitializationFailed(msg) => "Initialization failed: "@ + msg@,
        Error::BackendError(msg) => "Backend error: "@ + msg@,
        _ => "Engine error: "@ + error_text(e),
    }
}

impl Error {
    /// The line logged when the engine returns this error.
    pub fn log_message(&self) -> (s: String)
        ensures
            s@ == error_log_text(*self),
    {
        match self {
            Error::InitializationFailed(msg) => {
                let mut s = String::from_str("Initialization failed: ");
                s.append(msg.as_str());
                s
            },
            Error::BackendError(msg) => {
                let mut s = String::from_str("Backend error: ");
                s.append(msg.as_str());
                s
            },
            _ => {
                let mut s = String::from_str("Engine error: ");
                let t = self.to_string();
                s.append(t.as_str());
                s
            },
        }
    }
}

} // verus!
