//! Client-side core of a reverse tunnel: a bounded pool of outbound relay
//! connections bridges bytes between a public relay and a local service.
//!
//! The modules here hold the logic that is worth stating precisely: admission
//! control bounding concurrency, the per-connection lifecycle (which must
//! release its admission slot exactly once), the pool replenishment decision,
//! the byte-fidelity model of the bridge, and the parsing of the relay's
//! assignment response. Socket and HTTP plumbing lives outside this crate and
//! hands these functions plain values.

pub mod admission;
pub mod bridge;
pub mod connection;
pub mod pool;
pub mod resolve;
