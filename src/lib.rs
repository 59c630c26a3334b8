//! Partial-aggregation accumulators for a grouped mean over integer kinds:
//! a per-group running state of sum and count, fed through typed or dynamic
//! channels, merged across execution branches, and finalized per group.
pub mod dynamic;
pub mod kind;
pub mod mean;
pub mod model;

pub use kind::NumericKind;
pub use mean::{MeanAgg, MeanValue};
