//! The failure taxonomy of the client layer, and the shared error convention.
//!
//! Every native call that can fail hands back an optional error message: a
//! present message means the call failed and the message is carried through
//! verbatim; an absent message means success.

use vstd::prelude::*;

verus! {

/// A classified failure of the client layer.
///
/// - `IoError`: a filesystem failure before the native engine was reached.
/// - `StorageError`: a failure the native engine reported; the message is the
///   engine's own, unmodified.
/// - `InvalidArgument`: the caller asked for something the current state does
///   not admit, such as dropping an unregistered column family.
/// - `InvariantViolation`: a native call reported success but produced a
///   handle that breaks this layer's ownership invariants.
#[derive(Debug)]
pub enum Error {
    IoError(String),
    StorageError(String),
    InvalidArgument(String),
    InvariantViolation(String),
}

impl Error {
    /// The message carried by the failure, whichever class it falls in.
    pub open spec fn spec_message(&self) -> Seq<char> {
        match self {
            Error::IoError(m) => m@,
            Error::StorageError(m) => m@,
            Error::InvalidArgument(m) => m@,
            Error::InvariantViolation(m) => m@,
        }
    }

    /// Returns the carried message.
    pub fn message(&self) -> (m: &String)
        ensures
            m@ == self.spec_message(),
    {
        match self {
            Error::IoError(m) => m,
            Error::StorageError(m) => m,
            Error::InvalidArgument(m) => m,
            Error::InvariantViolation(m) => m,
        }
    }
}

/// The error convention shared by every fallible native call: an absent
/// message is success, a present message is a native failure carried through
/// verbatim as a `StorageError`.
pub fn native_outcome(outcome: Option<String>) -> (r: Result<(), Error>)
    ensures
        (r == match outcome {
            None => Ok::<(), Error>(()),
            Some(m) => Err::<(), Error>(Error::StorageError(m)),
        }),
{
    match outcome {
        None => Ok(()),
        Some(m) => Err(Error::StorageError(m)),
    }
}

} // verus!
