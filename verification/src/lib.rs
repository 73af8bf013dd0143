//! Parachain core-scheduling and claim-queue subsystem.
//!
//! The crate models which pending workloads (parachains) occupy which
//! fixed-size execution slots ("cores") over time, how long a pending claim
//! may wait before it expires, how occupancy is retried after a missed
//! availability deadline, and how the persisted state is transformed when
//! the on-chain data format changes.

pub mod assignment;
pub mod codec;
pub mod entry;
pub mod extension;
pub mod ids;
pub mod migration;
pub mod scheduler;
pub mod v0;
