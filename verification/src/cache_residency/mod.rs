//! Block-addressable residency for mutable attention state.
//!
//! Attention blocks are mutable activation state until sealed, while checkpoint
//! weights are immutable inputs with a different ownership and persistence model,
//! so nothing here depends on weight residency.

pub mod activity;
pub mod append;
pub mod block;
pub mod bookkeeping;
pub mod budget;
pub mod catalog;
pub mod coverage;
pub mod demotion;
pub mod error;
pub mod eviction;
pub mod fingerprint;
pub mod generation;
pub mod inspection;
pub mod lease;
pub mod manifest;
pub mod message;
pub mod open;
pub mod options;
pub mod persistence;
pub mod policy;
pub mod prompt;
pub mod rebalance;
pub mod report;
pub mod round_trip;
pub mod save;
pub mod shard;
pub mod stats;
pub mod truncate;
pub mod worker;
