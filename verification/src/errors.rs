//! The error taxonomy of the library.
//!
//! Every fallible operation returns `FsError`: a kind out of a fixed
//! taxonomy plus a human-readable message. Contracts throughout the crate
//! speak only of the kind; the message is free-form text for display.

use vstd::prelude::*;

verus! {

/// The kinds of failure the library distinguishes.
#[derive(Clone, Copy, Debug, PartialEq, Eq, Structural)]
pub enum ErrorKind {
    /// The directory or file does not exist.
    NotFound,
    /// The platform refused access.
    PermissionDenied,
    /// Creation was refused because the target path exists.
    AlreadyExists,
    /// A malformed encrypted payload or archive.
    InvalidFormat,
    /// Authentication of an encrypted payload failed: wrong password or
    /// corrupted data.
    AuthenticationFailed,
    /// An archive entry would escape the extraction directory.
    Security,
    /// Catch-all for underlying storage errors.
    Io,
}

/// A failure: a kind plus a human-readable message.
#[derive(Debug)]
pub struct FsError {
    pub kind: ErrorKind,
    pub message: String,
}

impl FsError {
    /// Builds an error of the given kind carrying the given message.
    pub fn new(kind: ErrorKind, message: &str) -> (r: FsError)
        ensures
            r.kind == kind,
            r.message@ == message@,
    {
        FsError { kind, message: message.to_owned() }
    }

    /// The kind of this error.
    pub fn kind(&self) -> (k: ErrorKind)
        ensures
            k == self.kind,
    {
        self.kind
    }

    /// The human-readable message of this error.
    pub fn message(&self) -> (m: &str)
        ensures
            m@ == self.message@,
    {
        self.message.as_str()
    }
}

impl Clone for FsError {
    /// An exact copy of the error.
    fn clone(&self) -> (r: Self)
        ensures
            r.kind == self.kind,
            r.message@ == self.message@,
    {
        FsError { kind: self.kind, message: self.message.clone() }
    }
}

} // verus!
