//! Architecture-independent sparse routed-expert caching.
//!
//! Each logical expert is an atomic residency unit. Route ids are validated before
//! acquisition, coalesced in deterministic global-id order, and rewritten to a temporary
//! compact bank.

pub mod acquire;
pub mod catalog;
pub mod error;
pub mod report;
