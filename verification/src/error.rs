//! The error value every fallible operation of this crate returns: an error
//! kind for programmatic inspection plus a static descriptive message.

use vstd::prelude::*;

verus! {

/// Classifies a failure.  The core only ever constructs errors with one of
/// these kinds and only ever inspects an error by asking for its kind.
#[derive(Clone, Copy, Debug, PartialEq, Eq, Structural)]
pub enum ErrorKind {
    /// The operation was interrupted before any data was transferred; it is
    /// non-fatal, and the multi-step operations of this crate retry it
    /// transparently.
    Interrupted,
    /// The source ran out of bytes before an exact-count read was satisfied.
    UnexpectedEof,
    /// A sink accepted zero bytes while data remained to be written.
    WriteZero,
    /// A parameter was malformed, such as a seek to a negative position.
    InvalidInput,
    /// Data was read successfully but is malformed for the requested
    /// interpretation, such as non-UTF-8 bytes read as text.
    InvalidData,
    /// A failure that fits no other kind.
    Uncategorized,
}

/// An error value: a kind plus a human-readable message.
#[derive(Clone, Copy, Debug)]
pub struct Error {
    kind: ErrorKind,
    message: &'static str,
}

impl Error {
    /// The kind this error was constructed with, for use in specifications.
    pub closed spec fn spec_kind(&self) -> ErrorKind {
        self.kind
    }

    /// The message this error was constructed with, for use in specifications.
    pub closed spec fn spec_message(&self) -> Seq<char> {
        self.message@
    }

    /// Constructs an error of the given kind with a descriptive message.
    pub fn new(kind: ErrorKind, message: &'static str) -> (e: Error)
        ensures
            e.spec_kind() == kind,
            e.spec_message() == message@,
    {
        Error { kind, message }
    }

    /// Returns the kind of this error.
    #[verifier::when_used_as_spec(spec_kind)]
    pub fn kind(&self) -> (k: ErrorKind)
        ensures
            k == self.spec_kind(),
    {
        self.kind
    }

    /// Returns the descriptive message of this error.
    pub fn message(&self) -> (m: &'static str)
        ensures
            m@ == self.spec_message(),
    {
        self.message
    }
}

} // verus!
