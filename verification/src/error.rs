//! Failure kinds, and the HTTP status under which each is reported.

use vstd::prelude::*;

verus! {

/// Why a list, create, toggle or reorder request failed.
#[derive(Clone, Copy, Debug, PartialEq, Eq, Structural)]
pub enum ServiceError {
    /// A required input is missing or malformed.
    ValidationError,
    /// The store could not be reached, or a statement or a row failed.
    StorageError,
}

/// Why a swap failed. In either case the table is as it was before.
#[derive(Clone, Copy, Debug, PartialEq, Eq, Structural)]
pub enum SwapError {
    /// Fewer than two rows match the two identities.
    NotFound,
    /// The transaction failed for another reason.
    StorageError,
}

/// The status of a request that succeeded.
pub const STATUS_OK: u16 = 200;

/// The status of a request that the caller got wrong.
pub const STATUS_BAD_REQUEST: u16 = 400;

/// The status of a request that failed inside the service.
pub const STATUS_INTERNAL_ERROR: u16 = 500;

/// The status under which a service failure is reported.
pub open spec fn service_status(error: ServiceError) -> u16 {
    match error {
        ServiceError::ValidationError => STATUS_BAD_REQUEST,
        ServiceError::StorageError => STATUS_INTERNAL_ERROR,
    }
}

/// The status under which a swap failure is reported.
pub open spec fn swap_status(error: SwapError) -> u16 {
    match error {
        SwapError::NotFound => STATUS_BAD_REQUEST,
        SwapError::StorageError => STATUS_INTERNAL_ERROR,
    }
}

impl ServiceError {
    /// The HTTP status for this failure.
    pub fn status(&self) -> (code: u16)
        ensures
            code == service_status(*self),
    {
        match self {
            ServiceError::ValidationError => STATUS_BAD_REQUEST,
            ServiceError::StorageError => STATUS_INTERNAL_ERROR,
        }
    }
}

impl SwapError {
    /// The HTTP status for this failure.
    pub fn status(&self) -> (code: u16)
        ensures
            code == swap_status(*self),
    {
        match self {
            SwapError::NotFound => STATUS_BAD_REQUEST,
            SwapError::StorageError => STATUS_INTERNAL_ERROR,
        }
    }
}

/// The HTTP status of a finished list, create, toggle or reorder request.
pub fn service_response_status<T>(outcome: &Result<T, ServiceError>) -> (code: u16)
    ensures
        code == match *outcome {
            Ok(_) => STATUS_OK,
            Err(e) => service_status(e),
        },
{
    match outcome {
        Ok(_) => STATUS_OK,
        Err(e) => e.status(),
    }
}

/// The HTTP status of a finished swap request.
pub fn swap_response_status(outcome: &Result<(), SwapError>) -> (code: u16)
    ensures
        code == match *outcome {
            Ok(_) => STATUS_OK,
            Err(e) => swap_status(e),
        },
{
    match outcome {
        Ok(_) => STATUS_OK,
        Err(e) => e.status(),
    }
}

} // verus!
