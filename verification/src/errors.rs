//! The error taxonomy of the data-access core.

use vstd::prelude::*;

verus! {

/// Every failure a caller of this crate can observe.
///
/// Filter- and validation-level errors (`UnknownField`, `TypeMismatch`,
/// `InvalidFilter`) are detected before any store call; store-level errors
/// (`StoreUnavailable`, `StoreTimeout`) are surfaced by the transport layer
/// that dispatches statements; `BatchFetchFailed` is what every pending
/// handle of a batch reports when the one underlying multi-key fetch fails.
#[derive(Clone, Copy, Debug, PartialEq, Eq, Structural)]
pub enum SDKError {
    /// The crate's own version string is not available.
    VersionNotFound,
    /// A single-entity fetch, update or delete matched zero rows.
    ResourceNotFound,
    /// A filter or sort names a field outside the resource's allow-list.
    UnknownField,
    /// A comparison value's variant does not match the field's declared type.
    TypeMismatch,
    /// A structurally invalid filter, such as an empty `IN` list or a bound
    /// value supplied to a null test.
    InvalidFilter,
    /// The underlying store could not be reached.
    StoreUnavailable,
    /// Waiting for a store connection exceeded the configured acquire timeout.
    StoreTimeout,
    /// The one batched fetch behind a set of pending loads failed; every
    /// handle of that batch reports this same error.
    BatchFetchFailed,
}

impl SDKError {
    /// A stable, human-readable name for the error.
    pub fn describe(&self) -> (r: &'static str)
        ensures
            r@ == describe_error(*self),
    {
        match self {
            SDKError::VersionNotFound => "version not found",
            SDKError::ResourceNotFound => "resource not found",
            SDKError::UnknownField => "unknown field",
            SDKError::TypeMismatch => "type mismatch",
            SDKError::InvalidFilter => "invalid filter",
            SDKError::StoreUnavailable => "store unavailable",
            SDKError::StoreTimeout => "store timeout",
            SDKError::BatchFetchFailed => "batch fetch failed",
        }
    }
}

/// The text `describe` returns for each error.
pub open spec fn describe_error(e: SDKError) -> Seq<char> {
    match e {
        SDKError::VersionNotFound => "version not found"@,
        SDKError::ResourceNotFound => "resource not found"@,
        SDKError::UnknownField => "unknown field"@,
        SDKError::TypeMismatch => "type mismatch"@,
        SDKError::InvalidFilter => "invalid filter"@,
        SDKError::StoreUnavailable => "store unavailable"@,
        SDKError::StoreTimeout => "store timeout"@,
        SDKError::BatchFetchFailed => "batch fetch failed"@,
    }
}

} // verus!
