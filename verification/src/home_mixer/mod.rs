//! The candidates of the "For You" feed, and the rules that pick among them.

pub mod candidate;
pub mod candidate_features;
pub mod candidate_hydrators;
pub mod field_laws;
pub mod filters;
pub mod laws;
pub mod phoenix_candidate_pipeline;
pub mod query;
pub mod query_features;
pub mod server;
pub mod visibility;
