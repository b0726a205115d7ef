//! The partition reconciler: one per shard, it makes the shard's partitions
//! and routing rows follow committed metadata.
//!
//! A pass looks at what is committed and at what the shard holds, and decides
//! what to build, tear down, route, answer and trim. What it decides is here;
//! the caller builds, deletes, sends and sleeps, and hands back what came of
//! it.
pub mod additions;
pub mod collections;
pub mod convergence;
pub mod counters;
pub mod ctx;
pub mod decisions;
pub mod enforcement;
pub mod failures;
pub mod groups;
pub mod laws;
pub mod parked;
pub mod pass;
pub mod removals;
pub mod sets;
pub mod snapshot;
pub mod wake;
