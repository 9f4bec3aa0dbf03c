//! Structured error values for each stage of the hyperslab pipeline.

use vstd::prelude::*;

verus! {

/// A `BlockValue` was built from parameters that break its invariant.
#[derive(Debug, Clone, Copy, PartialEq, Eq, Structural)]
pub enum ConstructionError {
    /// The block length reaches or exceeds the stride, so successive
    /// blocks along the axis would overlap.
    InvalidRange,
}

/// Geometry was queried, or a selection built, before validation.
#[derive(Debug, Clone, Copy, PartialEq, Eq, Structural)]
pub enum UsageError {
    /// The descriptor has not been validated against a dataset shape.
    NotValidated,
}

/// A descriptor could not be reconciled with a dataset shape.
#[derive(Debug, Clone, Copy, PartialEq, Eq, Structural)]
pub enum ValidationError {
    /// The descriptor's length disagrees with the dataset's rank.
    RankMismatch,
    /// The range supplied for `axis` has a right bound beyond the axis
    /// length.
    OutOfBounds { axis: usize },
}

/// A typed read could not be carried out.
#[derive(Debug, Clone, Copy, PartialEq, Eq, Structural)]
pub enum ReadError {
    /// A region was supplied for a singleton dataset, where a hyperslab
    /// is meaningless.
    InvalidUseOfRegionOnScalar,
    /// The dataset declares an element representation outside the
    /// supported set.
    UnsupportedElementKind,
    /// A singleton dataset yielded no element at all.
    EmptyDataset,
    /// The supplied region was never validated against the dataset's
    /// shape.
    NotValidated,
}

/// A typed write could not be carried out; nothing was sent to the
/// store.
#[derive(Debug, PartialEq, Eq)]
pub enum WriteError {
    /// A region was supplied for a singleton dataset, where a hyperslab
    /// is meaningless.
    InvalidUseOfRegionOnScalar,
    /// The supplied region was never validated against the dataset's
    /// shape.
    NotValidated,
    /// The payload's shape disagrees with the element counts the region
    /// selects.
    ShapeMismatch { expected: Vec<usize>, actual: Vec<usize> },
}

} // verus!
