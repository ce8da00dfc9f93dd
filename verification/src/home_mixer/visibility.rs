//! What the visibility service says about posts.

use vstd::prelude::*;

verus! {

/// What is to be done with a post.
#[derive(Clone, Copy, Debug, PartialEq, Eq, Structural)]
pub enum Action {
    /// The post is not to be shown; the number names the rule.
    Drop(u64),
    /// Anything else; the number names the action.
    Other(u64),
}

/// What a safety rule says of a post.
#[derive(Clone, Copy, Debug, PartialEq, Eq, Structural)]
pub struct SafetyResult {
    pub action: Action,
    /// The caller's own handle of the full record.
    pub handle: u64,
}

/// Why a post is not shown as it is.
#[derive(Clone, Copy, Debug, PartialEq, Eq, Structural)]
pub enum FilteredReason {
    SafetyResult(SafetyResult),
    /// Any other reason, by the caller's own handle.
    Other(u64),
}

/// For which part of the feed visibility is judged.
#[derive(Clone, Copy, Debug, PartialEq, Eq, Structural)]
pub enum SafetyLevel {
    TimelineHome,
    TimelineHomeRecommendations,
}

} // verus!
