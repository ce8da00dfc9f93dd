//! What services say about posts and users.

use vstd::prelude::*;

verus! {

/// The central data of a post.
#[derive(Debug, Clone, PartialEq, Eq, Default)]
pub struct PureCoreData {
    pub author_id: u64,
    pub text: String,
    pub source_tweet_id: Option<u64>,
    pub source_user_id: Option<u64>,
    pub in_reply_to_tweet_id: Option<u64>,
    pub in_reply_to_user_id: Option<u64>,
}

/// Who may read a post that is only for subscribers.
#[derive(Debug, Clone, Copy, PartialEq, Eq, Default, Structural)]
pub struct ExclusiveTweetControl {
    pub conversation_author_id: i64,
}

/// The attachments of a post.
pub type MediaEntities = Vec<MediaEntity>;

/// An attachment of a post.
#[derive(Debug, Clone, Copy, PartialEq, Eq, Default, Structural)]
pub struct MediaEntity {
    pub media_info: Option<MediaInfo>,
}

/// What an attachment is.
#[derive(Debug, Clone, Copy, PartialEq, Eq, Structural)]
pub enum MediaInfo {
    VideoInfo(VideoInfo),
}

#[derive(Debug, Clone, Copy, PartialEq, Eq, Default, Structural)]
pub struct VideoInfo {
    pub duration_millis: i32,
}

/// What a retweet repeats.
#[derive(Debug, Clone, Copy, PartialEq, Eq, Default, Structural)]
pub struct Share {
    pub source_tweet_id: u64,
    pub source_user_id: u64,
}

/// What a reply answers.
#[derive(Debug, Clone, Copy, PartialEq, Eq, Default, Structural)]
pub struct Reply {
    pub in_reply_to_tweet_id: Option<u64>,
    pub in_reply_to_user_id: u64,
}

#[derive(Debug, Clone, Copy, PartialEq, Eq, Default, Structural)]
pub struct GizmoduckUserCounts {
    pub followers_count: u32,
}

#[derive(Debug, Clone, PartialEq, Eq, Default)]
pub struct GizmoduckUserProfile {
    pub screen_name: String,
}

#[derive(Debug, Clone, PartialEq, Eq, Default)]
pub struct GizmoduckUser {
    pub user_id: u64,
    pub profile: GizmoduckUserProfile,
    pub counts: GizmoduckUserCounts,
}

#[derive(Debug, Clone, PartialEq, Eq, Default)]
pub struct GizmoduckUserResult {
    pub user: Option<GizmoduckUser>,
}

} // verus!
