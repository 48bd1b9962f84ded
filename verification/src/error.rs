//! The ways in which an operation of the registry fails.

use crate::store::StoreError;
use vstd::prelude::*;

verus! {

/// Why an operation failed. Every failure is reported to the caller as
/// one of these; none is retried or hidden.
#[derive(Clone, Copy, Debug, PartialEq, Eq, Structural)]
pub enum Error {
    /// A mandatory parameter is missing.
    InvalidRequest,
    /// The requested name belongs to a subscribed device.
    NameUnavailable,
    /// No record has the token, or nothing is known of the discovery
    /// identifier.
    NotFound,
    /// The store refused the change.
    StoreFailure,
}

/// How a failure of the store is reported to the caller of an operation.
pub open spec fn reported(e: StoreError) -> Error {
    match e {
        StoreError::NoRecord => Error::NotFound,
        StoreError::Rejected => Error::StoreFailure,
    }
}

impl Error {
    /// The error that reports a failure of the store: a missing entry is
    /// `NotFound`, anything else a `StoreFailure`.
    pub fn from_store(e: StoreError) -> (r: Error)
        ensures
            r == reported(e),
    {
        match e {
            StoreError::NoRecord => Error::NotFound,
            _ => Error::StoreFailure,
        }
    }
}

} // verus!
