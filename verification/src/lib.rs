//! A capacity-bounded, least-recently-used cache of query results.

pub mod cache;
pub mod executor;
pub mod laws;
pub mod model;
pub mod size;
pub mod store;
