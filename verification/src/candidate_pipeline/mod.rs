//! The engine that runs a request through the stages of a candidate pipeline.

pub mod candidate_pipeline;
pub mod component;
pub mod filter;
pub mod hydrator;
pub mod laws;
pub mod query_hydrator;
pub mod run;
pub mod scorer;
pub mod selector;
pub mod side_effect;
pub mod source;
pub mod stage_laws;
