//! The error value that the library's fallible operations return: a kind
//! (the same kinds that `std::io::ErrorKind` names for these situations)
//! and a message.

use vstd::prelude::*;

verus! {

/// The category of a failure.
#[derive(Clone, Copy, Debug, PartialEq, Eq, Structural)]
pub enum IoErrorKind {
    InvalidData,
    InvalidInput,
    UnexpectedEof,
    NotFound,
    TimedOut,
    Other,
}

/// A failure with its category and a human-readable message.
#[derive(Debug)]
pub struct IoError {
    pub kind: IoErrorKind,
    pub message: String,
}

impl IoError {
    /// Builds an error from a kind and a message.
    pub fn new(kind: IoErrorKind, message: &str) -> (e: IoError)
        ensures
            e.kind == kind,
            e.message@ == message@,
    {
        IoError { kind, message: String::from_str(message) }
    }
}

impl Clone for IoError {
    fn clone(&self) -> (r: Self)
        ensures
            r == *self,
    {
        IoError { kind: self.kind, message: self.message.clone() }
    }
}

} // verus!
