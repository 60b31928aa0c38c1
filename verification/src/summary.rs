//! Summary endpoints.

pub mod collection_stats;
