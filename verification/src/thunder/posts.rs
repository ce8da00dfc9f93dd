//! Plain data of the in-network post service.

use vstd::prelude::*;

verus! {

/// A post as the store keeps it: identifiers, relations to other posts, and
/// the flags that decide in which timelines it is listed.
#[derive(Clone, Copy, Debug, PartialEq, Eq, Structural)]
pub struct LightPost {
    pub post_id: i64,
    pub author_id: i64,
    /// Creation time in Unix seconds.
    pub created_at: i64,
    pub in_reply_to_post_id: Option<i64>,
    pub in_reply_to_user_id: Option<i64>,
    pub is_retweet: bool,
    pub is_reply: bool,
    pub source_post_id: Option<i64>,
    pub source_user_id: Option<i64>,
    pub has_video: bool,
    pub conversation_id: Option<i64>,
}

impl View for LightPost {
    type V = LightPost;

    open spec fn view(&self) -> LightPost {
        *self
    }
}

/// The event that withdraws a post.
#[derive(Clone, Copy, Debug, PartialEq, Eq, Structural)]
pub struct TweetDeleteEvent {
    pub post_id: i64,
    /// Time of the withdrawal in Unix seconds.
    pub deleted_at: i64,
}

/// The entry of a timeline: which post, and when it was created.
#[derive(Clone, Copy, Debug, PartialEq, Eq, Hash, Structural)]
pub struct TinyPost {
    pub post_id: i64,
    /// Creation time in Unix seconds.
    pub created_at: i64,
}

impl TinyPost {
    /// The timeline entry of post `post_id` created at `created_at`.
    pub fn new(post_id: i64, created_at: i64) -> (tiny: TinyPost)
        ensures
            tiny == (TinyPost { post_id, created_at }),
    {
        TinyPost { post_id, created_at }
    }
}

} // verus!
