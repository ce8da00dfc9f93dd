//! In-network post service: the post store and the decisions around it.

pub mod admission;
pub mod clock;
pub mod ingest;
pub mod ingest_laws;
pub mod launch;
pub mod listener;
pub mod listener_laws;
pub mod listing_laws;
pub mod partitions;
pub mod post_store;
pub mod posts;
pub mod reading_laws;
pub mod schema;
pub mod service;
pub mod service_laws;
pub mod statistics;
pub mod store_laws;
pub mod store_model;
pub mod store_sums;
pub mod tables;
pub mod worker_laws;
