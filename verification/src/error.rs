//! The errors that the library reports.

use vstd::prelude::*;

verus! {

/// The kinds of failure.
#[derive(Debug, Clone, Copy, PartialEq, Eq, Structural)]
pub enum ErrorKind {
    /// A manifest or file that should be there is missing.
    NotFound,
    /// Persisted data that cannot be understood.
    CorruptFormat,
    /// The file system failed.
    IoError,
    /// No recorded interaction answers the request.
    NoMatch,
    /// A required piece of configuration is missing.
    InvalidConfiguration,
    /// The transport behind the client failed.
    Transport,
}

/// A failure: its kind, the HTTP-style status it is reported with, and a
/// message for the reader.
#[derive(Debug)]
pub struct VcrError {
    pub kind: ErrorKind,
    pub status: u16,
    pub message: String,
}

impl VcrError {
    /// A failure of the given kind.
    pub fn new(kind: ErrorKind, status: u16, message: String) -> (e: Self)
        ensures
            e.kind == kind,
            e.status == status,
            e.message == message,
    {
        VcrError { kind, status, message }
    }

    /// The failure for something that should be on disk and is not; it is
    /// reported with status 404.
    pub fn not_found(message: String) -> (e: Self)
        ensures
            e.kind == ErrorKind::NotFound,
            e.status == 404,
            e.message == message,
    {
        VcrError { kind: ErrorKind::NotFound, status: 404, message }
    }

    /// The failure for persisted data that cannot be understood; it is
    /// reported with status 500.
    pub fn corrupt_format(message: String) -> (e: Self)
        ensures
            e.kind == ErrorKind::CorruptFormat,
            e.status == 500,
            e.message == message,
    {
        VcrError { kind: ErrorKind::CorruptFormat, status: 500, message }
    }

    /// The failure of the file system; it is reported with status 500.
    pub fn io_error(message: String) -> (e: Self)
        ensures
            e.kind == ErrorKind::IoError,
            e.status == 500,
            e.message == message,
    {
        VcrError { kind: ErrorKind::IoError, status: 500, message }
    }

    /// The message, for display.
    pub fn to_string(&self) -> (s: String)
        ensures
            s@ == self.message@,
    {
        self.message.clone()
    }
}

} // verus!
