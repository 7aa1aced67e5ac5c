//! The ways in which an operation on the store fails.

use vstd::prelude::*;

verus! {

/// Why an operation on the store failed.
#[derive(Debug)]
pub enum KvsError {
    /// The storage layer did not do what was asked: a read gave other than
    /// the bytes of the span, or a record would end beyond the last offset.
    Io,
    /// A record could not be serialized, or the log holds bytes that are no
    /// record where one was expected.
    Serde,
    /// A removal named a key that has no live value.
    KeyNotFound,
    /// The index led to bytes that are not exactly one `Set` record.
    UnexpectedCommandType,
}

impl KvsError {
    /// The message shown to a user for this failure.
    pub fn message(&self) -> (text: &'static str)
        ensures
            text@ == match *self {
                KvsError::Io => "I/O error"@,
                KvsError::Serde => "serialization error"@,
                KvsError::KeyNotFound => "Key not found"@,
                KvsError::UnexpectedCommandType => "Unexpected command type"@,
            },
    {
        match self {
            KvsError::Io => "I/O error",
            KvsError::Serde => "serialization error",
            KvsError::KeyNotFound => "Key not found",
            KvsError::UnexpectedCommandType => "Unexpected command type",
        }
    }
}

} // verus!
