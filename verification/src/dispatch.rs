//! What a shard does with the requests of its clients.
//!
//! Each request is routed by its header, and each route is a sequence of
//! steps. What to do next is decided here; the caller looks things up, sends,
//! waits and submits, and hands back what came of it.
pub mod autocommit;
pub mod laws;
pub mod owner;
pub mod partition;
pub mod queues;
pub mod reads;
pub mod replicated;
pub mod reply;
pub mod routable;
pub mod route;
pub mod segments;
pub mod serving;
pub mod sessions;
