//! Reusable expert-parallel assignment, routing, and exchange infrastructure.
//!
//! Pure expert parallelism keeps ordinary model state replicated and partitions
//! only routed expert banks.

pub mod assignment;
pub mod banks;
pub mod caches;
pub mod exchange;
pub mod loading;
pub mod model;
pub mod placement;
pub mod routes;
pub mod sampling;
pub mod serving;
pub mod statistics;
