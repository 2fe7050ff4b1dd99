//! The input-validation errors that the engine's operations report.

use vstd::prelude::*;

verus! {

/// Why an operation rejected its input. All variants are local validation
/// failures, surfaced synchronously; nothing is retried.
#[derive(Clone, Copy, Debug, PartialEq, Eq, Structural)]
pub enum VectorError {
    /// Two vectors that must share a length do not.
    DimensionMismatch,
    /// A flattened collection's length is not a positive multiple of the
    /// stated per-vector dimension.
    MalformedCollection,
    /// The number of labels disagrees with the number of vectors.
    LabelCountMismatch,
    /// A zero-magnitude vector cannot be normalized.
    ZeroVectorError,
}

impl VectorError {
    /// The human-readable description of the violated contract.
    pub fn message(&self) -> (r: &'static str)
        ensures
            *self is DimensionMismatch ==> r@ == "Vectors must have the same length"@,
            *self is MalformedCollection ==> r@ == "Vectors array length must be a multiple of vector_size"@,
            *self is LabelCountMismatch ==> r@ == "Number of vectors and paths must match"@,
            *self is ZeroVectorError ==> r@ == "Cannot normalize zero vector"@,
    {
        match self {
            VectorError::DimensionMismatch => "Vectors must have the same length",
            VectorError::MalformedCollection => "Vectors array length must be a multiple of vector_size",
            VectorError::LabelCountMismatch => "Number of vectors and paths must match",
            VectorError::ZeroVectorError => "Cannot normalize zero vector",
        }
    }
}

} // verus!
