//! Replay and upgrade dry-run engines for a sandboxed runtime.
//!
//! The library holds the decision logic of two engines: a continuous
//! block-replay loop that re-executes finalized blocks against a long-lived
//! execution context, and a single-shot dry run of a runtime upgrade that
//! decodes and validates a resource-cost report. All network traffic and the
//! sandboxed executor itself live outside the library; the engines are state
//! machines over plain values, and the surrounding process performs the
//! actions they request.

pub mod context;
pub mod follow_chain;
pub mod pipeline;
pub mod on_runtime_upgrade;
pub mod scale;
pub mod selectors;
pub mod shared_parameters;
pub mod weights;

pub use shared_parameters::{Runtime, SharedParams};
pub use weights::{Weight, WeightReport};
