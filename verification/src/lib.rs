//! Hyperslab block abstraction and typed dispatch for a chunked,
//! multi-dimensional array store.
//!
//! The crate models regularly-strided sub-regions of an N-dimensional
//! dataset (`BlockValue` for one axis, `Block` for a whole descriptor),
//! validates them against a concrete dataset shape, translates them into
//! the storage engine's native selection quadruples, and plans typed
//! reads and writes over a closed set of numeric element kinds.

pub mod block;
pub mod data;
pub mod errors;
pub mod typed;

pub use block::{Block, BlockValue, RangeModel, SliceCount};
pub use data::{Data, DatasetInfo, H5File};
pub use errors::{ConstructionError, ReadError, UsageError, ValidationError, WriteError};
pub use typed::{ElementKind, H5Data, NdPayload, NumericKind, ReadPlan};
