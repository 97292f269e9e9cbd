//! The error taxonomy surfaced by the generated data-access operations.
//!
//! Run-time operations never expose raw store-level failures.  Every
//! failure maps to exactly one of the five kinds of [`ErrorKind`];
//! [`classify_store_failure`] fixes which kind a classified store
//! failure becomes.

use vstd::prelude::*;

verus! {

/// The closed set of error kinds surfaced to callers of the generated
/// operations, in place of raw store-level failures.
#[derive(Clone, Copy, Debug, PartialEq, Eq, Structural)]
pub enum ErrorKind {
    /// A read of one record by key matched no row.
    NotFound,
    /// A create violated a uniqueness constraint.
    AlreadyExists,
    /// A value failed a constraint checked before reaching the store.
    InvalidInput,
    /// The operation was rejected by an access-control layer outside this
    /// core.
    Unauthorized,
    /// Any other store-level failure, carrying the underlying diagnostic
    /// text.
    InternalError,
}

/// Error returned by every run-time data-access operation.
#[derive(Debug)]
pub struct CRUDError {
    /// Which of the five caller-facing kinds this error is.
    pub kind: ErrorKind,
    /// Diagnostic text, usually the underlying store's own wording.
    pub message: String,
}

impl CRUDError {
    /// Wraps a diagnostic text as an internal error, the kind every
    /// otherwise-unclassified store failure maps to.
    pub fn new(message: String) -> (r: CRUDError)
        ensures
            r.kind == ErrorKind::InternalError,
            r.message@ == message@,
    {
        CRUDError { kind: ErrorKind::InternalError, message }
    }

    /// Builds an error of the given kind with the given diagnostic text.
    pub fn with_kind(kind: ErrorKind, message: String) -> (r: CRUDError)
        ensures
            r.kind == kind,
            r.message@ == message@,
    {
        CRUDError { kind, message }
    }
}

/// A failure reported by the underlying data store, as observed at the
/// store boundary.  The boundary reports a uniqueness-constraint
/// violation and a rejection by an access-control layer as their own
/// variants; every other failure arrives as `Other`.
#[derive(Debug)]
pub enum StoreFailure {
    /// The store rejected a write because it would violate a uniqueness
    /// constraint.
    ConstraintViolation { message: String },
    /// An access-control layer outside this core rejected the operation.
    AccessDenied { message: String },
    /// Any other store-level failure.
    Other { message: String },
}

/// The caller-facing kind a store failure translates to.
pub open spec fn classified_kind(f: StoreFailure) -> ErrorKind {
    match f {
        StoreFailure::ConstraintViolation { .. } => ErrorKind::AlreadyExists,
        StoreFailure::AccessDenied { .. } => ErrorKind::Unauthorized,
        StoreFailure::Other { .. } => ErrorKind::InternalError,
    }
}

/// The diagnostic text carried by a store failure.
pub open spec fn failure_text(f: StoreFailure) -> Seq<char> {
    match f {
        StoreFailure::ConstraintViolation { message } => message@,
        StoreFailure::AccessDenied { message } => message@,
        StoreFailure::Other { message } => message@,
    }
}

/// Translates a store failure into exactly one caller-facing error kind,
/// keeping the underlying diagnostic text: a constraint violation becomes
/// `AlreadyExists`, an access-control rejection becomes `Unauthorized`,
/// and everything else becomes `InternalError`.
pub fn classify_store_failure(f: StoreFailure) -> (r: CRUDError)
    ensures
        r.kind == classified_kind(f),
        r.message@ == failure_text(f),
{
    match f {
        StoreFailure::ConstraintViolation { message } => CRUDError {
            kind: ErrorKind::AlreadyExists,
            message,
        },
        StoreFailure::AccessDenied { message } => CRUDError {
            kind: ErrorKind::Unauthorized,
            message,
        },
        StoreFailure::Other { message } => CRUDError {
            kind: ErrorKind::InternalError,
            message,
        },
    }
}

} // verus!
