use vstd::prelude::*;

verus! {

/// The two ways a reconciliation can fail.
#[derive(Clone, Copy, Debug, PartialEq, Eq, Structural)]
pub enum ErrorKind {
    /// A parameter is missing or is not in the accepted shape.
    InvalidFormat,
    /// A filesystem operation failed.
    Io,
}

/// A failed invocation: its kind and a human-readable message.
#[derive(Clone, Debug)]
pub struct Error {
    pub kind: ErrorKind,
    pub message: String,
}

impl Error {
    /// A format error whose message is the offending text.
    pub fn invalid_format(text: &str) -> (e: Error)
        ensures
            e.kind == ErrorKind::InvalidFormat,
            e.message@ == text@,
    {
        Error { kind: ErrorKind::InvalidFormat, message: text.to_owned() }
    }

    pub fn kind(&self) -> (k: ErrorKind)
        ensures
            k == self.kind,
    {
        self.kind
    }
}

} // verus!
