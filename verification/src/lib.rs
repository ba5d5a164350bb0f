//! Core of a query planner: plan algebra, property derivation, table and
//! column statistics with versioned migration, physical pipeline building,
//! and bucket-partitioned aggregation spill metadata.

pub mod builder;
pub mod codec;
pub mod histogram;
pub mod legacy;
pub mod plan;
pub mod property;
pub mod scalar;
pub mod spill;
pub mod stats;

use vstd::prelude::*;

verus! {

/// Faults raised while planning a query or while restoring spilled
/// aggregation state.
#[derive(Clone, PartialEq, Eq, Structural, Debug)]
pub enum PlanError {
    /// A physical-behaviour question was posed to an operator variant that
    /// has no defined physical behaviour yet.
    Unsupported,
    /// A required input ordering could not be satisfied by inserting an
    /// exchange stage.
    IrreconcilableOrdering,
    /// A spilled bucket expected during restore was not found; the index
    /// names the absent bucket.
    MissingBucket { bucket: isize },
}

} // verus!

