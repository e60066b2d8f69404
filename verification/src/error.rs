//! The error taxonomy every operation reports through: store-side
//! execution failures, contractually missing rows, shape mismatches when
//! narrowing a dynamic value, and the two client-input faults.

use vstd::prelude::*;
use crate::value::Kind;

verus! {

/// Mathematical model of an [`Error`].
pub enum SpecError {
    BackendError(Seq<char>),
    MissingResultError,
    ConversionError { expected: Kind, got: Option<Kind> },
    IndexOutOfBounds,
    EmptyIdError,
}

/// What an operation reports when it cannot return a result.
///
/// `BackendError` carries the store's own message for a failed
/// execution. `MissingResultError` says the store returned no result set
/// or no row where one was owed. `ConversionError` says a dynamic value
/// did not have the requested shape; `got` is `None` when a required
/// field was absent altogether. `IndexOutOfBounds` and `EmptyIdError`
/// report bad client input.
#[derive(Debug, Clone, PartialEq, Eq)]
pub enum Error {
    BackendError(String),
    MissingResultError,
    ConversionError { expected: Kind, got: Option<Kind> },
    IndexOutOfBounds,
    EmptyIdError,
}

impl View for Error {
    type V = SpecError;

    open spec fn view(&self) -> SpecError {
        match self {
            Error::BackendError(m) => SpecError::BackendError(m@),
            Error::MissingResultError => SpecError::MissingResultError,
            Error::ConversionError { expected, got } => SpecError::ConversionError {
                expected: *expected,
                got: *got,
            },
            Error::IndexOutOfBounds => SpecError::IndexOutOfBounds,
            Error::EmptyIdError => SpecError::EmptyIdError,
        }
    }
}

impl Error {
    /// True of the kinds that report bad client input; the others report
    /// a store-side or integration fault.
    pub fn is_client_error(&self) -> (r: bool)
        ensures
            r == (self@ is IndexOutOfBounds || self@ is EmptyIdError),
    {
        match self {
            Error::IndexOutOfBounds => true,
            Error::EmptyIdError => true,
            _ => false,
        }
    }
}

} // verus!
