//! Verified core of a "For You" feed: the in-memory post store that serves
//! recent posts of followed accounts, the candidate pipeline engine, and the
//! rules that mix, filter and hydrate candidates.

pub mod candidate_pipeline;
pub mod home_mixer;
pub mod ordering;
pub mod score;
pub mod seqs;
pub mod status;
pub mod text;
pub mod thunder;
