//! The components that fill in the candidates of the feed.
//!
//! A hydrator that asks a service is split in two: a function that says what to
//! ask, and a function that turns the service's answer into candidates that hold
//! the fields found.

pub mod common;
pub mod core_data_candidate_hydrator;
pub mod gizmoduck_hydrator;
pub mod in_network_candidate_hydrator;
pub mod subscription_hydrator;
pub mod vf_candidate_hydrator;
pub mod video_duration_candidate_hydrator;
