//! Failures of the filesystem graph.

use vstd::prelude::*;

use crate::ids::{FileKey, FileLinkId};

verus! {

/// A rule of the tables that a row broke.
#[derive(Clone, Copy, Debug, PartialEq, Eq, Structural)]
pub enum StorageFault {
    /// A row refers to a volume that is not there.
    UnknownVolume,
    /// Another link of the same parent has the name.
    DuplicateName,
    /// Another root link of the volume has the name.
    DuplicateRootName,
    /// No row number is left.
    SequenceExhausted,
    /// A sum leaves the signed integer range.
    IntegerOverflow,
}

/// Failure while validating, mutating, or resolving the filesystem graph.
#[derive(Clone, Debug, PartialEq, Eq)]
pub enum GraphError {
    /// The tables refused a row.
    Storage(StorageFault),
    /// A projection payload could not be encoded.
    Serialization,
    /// A mutation batch violated the ingestion contract.
    InvalidBatch(String),
    /// A mutation would violate graph identity.
    Invariant(String),
    /// The requested link is not present.
    LinkNotFound(FileLinkId),
    /// A parent object has no current namespace link.
    MissingParent(FileKey),
    /// A directory parent has several links and therefore no single current path.
    AmbiguousParent(FileKey),
    /// A parent cycle was detected while deriving a path.
    ParentCycle(FileKey),
    /// Resolution crossed a traversal boundary.
    TraversalBoundary(FileLinkId),
    /// Resolution exceeded its depth limit.
    DepthLimit(usize),
    /// A numeric value is outside the signed integer range of the tables.
    NumericRange(String),
}

/// A failure as a mathematical value.
pub enum ErrorModel {
    Storage(StorageFault),
    Serialization,
    InvalidBatch(Seq<char>),
    Invariant(Seq<char>),
    LinkNotFound(FileLinkId),
    MissingParent(FileKey),
    AmbiguousParent(FileKey),
    ParentCycle(FileKey),
    TraversalBoundary(FileLinkId),
    DepthLimit(nat),
    NumericRange(Seq<char>),
}

impl View for GraphError {
    type V = ErrorModel;

    open spec fn view(&self) -> ErrorModel {
        match self {
            GraphError::Storage(fault) => ErrorModel::Storage(*fault),
            GraphError::Serialization => ErrorModel::Serialization,
            GraphError::InvalidBatch(message) => ErrorModel::InvalidBatch(message@),
            GraphError::Invariant(message) => ErrorModel::Invariant(message@),
            GraphError::LinkNotFound(id) => ErrorModel::LinkNotFound(*id),
            GraphError::MissingParent(key) => ErrorModel::MissingParent(*key),
            GraphError::AmbiguousParent(key) => ErrorModel::AmbiguousParent(*key),
            GraphError::ParentCycle(key) => ErrorModel::ParentCycle(*key),
            GraphError::TraversalBoundary(id) => ErrorModel::TraversalBoundary(*id),
            GraphError::DepthLimit(limit) => ErrorModel::DepthLimit(*limit as nat),
            GraphError::NumericRange(field) => ErrorModel::NumericRange(field@),
        }
    }
}

/// Result type used by filesystem graph operations.
pub type GraphResult<T> = Result<T, GraphError>;

/// The invariant failure with this message.
pub(crate) fn invariant_error(message: &str) -> (e: GraphError)
    ensures
        e@ == ErrorModel::Invariant(message@),
{
    GraphError::Invariant(message.to_owned())
}

/// The batch failure with this message.
pub(crate) fn invalid_batch(message: &str) -> (e: GraphError)
    ensures
        e@ == ErrorModel::InvalidBatch(message@),
{
    GraphError::InvalidBatch(message.to_owned())
}

/// The range failure of this field.
pub(crate) fn numeric_range(field: &str) -> (e: GraphError)
    ensures
        e@ == ErrorModel::NumericRange(field@),
{
    GraphError::NumericRange(field.to_owned())
}

} // verus!
