//! The error type shared by the backend services.
use vstd::prelude::*;

verus! {

/// The stable category of a backend failure.
#[derive(Clone, Copy, Debug, PartialEq, Eq, Structural)]
pub enum BackendErrorCode {
    InvalidArgument,
    Io,
    Unsupported,
    NotReady,
    Internal,
}

/// A backend failure: its category and a human-readable message.
#[derive(Clone, Debug)]
pub struct BackendError {
    pub code: BackendErrorCode,
    pub message: String,
}

impl BackendError {
    /// An error of the given category carrying `message` verbatim.
    pub fn new(code: BackendErrorCode, message: &str) -> (e: BackendError)
        ensures
            e.code == code,
            e.message@ == message@,
    {
        BackendError { code, message: message.to_owned() }
    }

    /// An error of the given category carrying `message` verbatim.
    pub fn with_message(code: BackendErrorCode, message: String) -> (e: BackendError)
        ensures
            e.code == code,
            e.message@ == message@,
    {
        BackendError { code, message }
    }

    /// The `unsupported` error returned for a capability the headless runtime lacks.
    pub fn unsupported(capability: &str) -> (e: BackendError)
        ensures
            e.code == BackendErrorCode::Unsupported,
            e.message@ == "Capability '"@ + capability@ + "' is not available in headless mode"@,
    {
        let mut message = "Capability '".to_owned();
        message.append(capability);
        message.append("' is not available in headless mode");
        BackendError { code: BackendErrorCode::Unsupported, message }
    }

    /// The message, as the error's display text.
    pub fn to_message(&self) -> (s: String)
        ensures
            s@ == self.message@,
    {
        self.message.clone()
    }
}

} // verus!
