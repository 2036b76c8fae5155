//! Verified residency, routing and cache logic for layerwise language-model execution.
//!
//! The modules here hold every rule the runtime follows: which cache block moves
//! between memory tiers, which expert owns a route, what a persisted prompt cache
//! must look like, and how decoder layers are grouped. Device arrays, files,
//! threads and clocks stay outside; they reach this crate as plain values.

pub mod array;
pub mod cache;
pub mod cache_residency;
pub mod chat;
pub mod deepseek_v3;
pub mod dense_stream;
pub mod digest;
pub mod duration;
pub mod error;
pub mod expert_cache;
pub mod expert_parallel;
pub mod gemma4;
pub mod layerwise;
pub mod offload;
pub mod order;
pub mod rows;
pub mod text;
pub mod units;
