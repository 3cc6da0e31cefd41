//! Why a batch operation ended without a result.

use vstd::prelude::*;
use crate::path::PathError;
use crate::path::PathFailure;
use crate::schema::SchemaError;
use crate::schema::SchemaFailure;

verus! {

/// The model of a failed batch operation.
pub enum BatchFailure {
    Path(PathFailure),
    TooManyRecords,
    Connection(Seq<char>),
    Schema(SchemaFailure),
    SchemaRead(Seq<char>),
    Prepare(Seq<char>),
    Commit(Seq<char>),
    UnexpectedEvent,
}

/// Why a batch operation ended without a result. Every one of these ends the
/// operation; a record that fails on its own is counted and does not.
#[derive(Debug, PartialEq, Eq)]
pub enum BatchError {
    /// The root expression does not resolve in the document.
    Path(PathError),
    /// There are more records than a progress record can count.
    TooManyRecords,
    /// The database could not be opened.
    Connection(String),
    /// The table does not fit the operation.
    Schema(SchemaError),
    /// The table's metadata could not be read.
    SchemaRead(String),
    /// The transaction or its statement could not be set up.
    Prepare(String),
    /// The transaction could not be committed: no change was applied.
    Commit(String),
    /// An event arrived that the current phase does not expect.
    UnexpectedEvent,
}

impl View for BatchError {
    type V = BatchFailure;

    open spec fn view(&self) -> BatchFailure {
        match self {
            BatchError::Path(error) => BatchFailure::Path(error@),
            BatchError::TooManyRecords => BatchFailure::TooManyRecords,
            BatchError::Connection(message) => BatchFailure::Connection(message@),
            BatchError::Schema(error) => BatchFailure::Schema(error@),
            BatchError::SchemaRead(message) => BatchFailure::SchemaRead(message@),
            BatchError::Prepare(message) => BatchFailure::Prepare(message@),
            BatchError::Commit(message) => BatchFailure::Commit(message@),
            BatchError::UnexpectedEvent => BatchFailure::UnexpectedEvent,
        }
    }
}

} // verus!
