//! The events about tweets that the service takes in, and the compact events
//! that its instances exchange.

use vstd::prelude::*;

use crate::thunder::posts::{LightPost, TweetDeleteEvent};

verus! {

/// What a video is.
#[derive(Clone, Copy, Debug, PartialEq, Eq, Structural)]
pub struct TweetVideoInfo {
    pub duration_millis: Option<i32>,
}

/// What an attachment of a tweet is.
#[derive(Clone, Copy, Debug, PartialEq, Eq, Structural)]
pub enum TweetMediaInfo {
    VideoInfo(TweetVideoInfo),
    Other,
}

/// An attachment of a tweet.
#[derive(Clone, Copy, Debug, PartialEq, Eq, Structural)]
pub struct TweetMedia {
    pub media_info: Option<TweetMediaInfo>,
}

/// What a reply answers.
#[derive(Clone, Copy, Debug, PartialEq, Eq, Structural)]
pub struct TweetReply {
    pub in_reply_to_status_id: Option<i64>,
    pub in_reply_to_user_id: Option<i64>,
}

/// What a retweet repeats.
#[derive(Clone, Copy, Debug, PartialEq, Eq, Structural)]
pub struct TweetShare {
    pub source_status_id: Option<i64>,
    pub source_user_id: Option<i64>,
}

/// The central data of a tweet.
#[derive(Clone, Copy, Debug, PartialEq, Eq, Structural)]
pub struct TweetCoreData {
    pub created_at_secs: Option<i64>,
    /// Set for tweets that never enter a timeline.
    pub nullcast: Option<bool>,
    pub reply: Option<TweetReply>,
    pub share: Option<TweetShare>,
    pub conversation_id: Option<i64>,
}

#[derive(Clone, Debug, PartialEq, Eq)]
pub struct Tweet {
    pub id: Option<i64>,
    pub core_data: Option<TweetCoreData>,
    pub media: Option<Vec<TweetMedia>>,
}

/// A tweet was written.
#[derive(Clone, Debug, PartialEq, Eq)]
pub struct TweetCreated {
    pub tweet: Option<Tweet>,
    /// The id of the author, where the author is known.
    pub user_id: Option<i64>,
}

/// What an event about tweets says.
#[derive(Clone, Debug, PartialEq, Eq)]
pub enum TweetEventData {
    TweetCreateEvent(TweetCreated),
    /// The tweet that was deleted.
    TweetDeleteEvent(Option<Tweet>),
    /// The tweet that quotes one that was deleted.
    QuotedTweetDeleteEvent(Option<i64>),
    Other,
}

#[derive(Clone, Debug, PartialEq, Eq)]
pub struct TweetEvent {
    pub data: Option<TweetEventData>,
}

/// A post was written, in the compact form.
#[derive(Clone, Copy, Debug, PartialEq, Eq, Structural)]
pub struct TweetCreateEvent {
    pub post_id: i64,
    pub author_id: i64,
    pub created_at: i64,
    pub in_reply_to_post_id: Option<i64>,
    pub in_reply_to_user_id: Option<i64>,
    pub is_retweet: bool,
    pub is_reply: bool,
    pub source_post_id: Option<i64>,
    pub source_user_id: Option<i64>,
    pub has_video: bool,
    pub conversation_id: Option<i64>,
}

/// What a compact event says.
#[derive(Clone, Copy, Debug, PartialEq, Eq, Structural)]
pub enum EventVariant {
    TweetCreateEvent(TweetCreateEvent),
    TweetDeleteEvent(TweetDeleteEvent),
}

/// The event that instances of the service exchange.
#[derive(Clone, Copy, Debug, PartialEq, Eq, Structural)]
pub struct InNetworkEvent {
    pub event_variant: Option<EventVariant>,
}

/// A message of a topic. One without a payload withdraws an earlier message.
#[derive(Clone, Debug, PartialEq, Eq)]
pub struct KafkaMessage {
    pub payload: Option<Vec<u8>>,
}

/// The compact event that tells of `post`.
pub open spec fn create_event(post: LightPost) -> InNetworkEvent {
    InNetworkEvent {
        event_variant: Some(
            EventVariant::TweetCreateEvent(
                TweetCreateEvent {
                    post_id: post.post_id,
                    author_id: post.author_id,
                    created_at: post.created_at,
                    in_reply_to_post_id: post.in_reply_to_post_id,
                    in_reply_to_user_id: post.in_reply_to_user_id,
                    is_retweet: post.is_retweet,
                    is_reply: post.is_reply,
                    source_post_id: post.source_post_id,
                    source_user_id: post.source_user_id,
                    has_video: post.has_video,
                    conversation_id: post.conversation_id,
                },
            ),
        ),
    }
}

/// The compact event that tells of the deletion of `post_id` at time `now`.
pub open spec fn delete_event(post_id: i64, now: i64) -> InNetworkEvent {
    InNetworkEvent {
        event_variant: Some(
            EventVariant::TweetDeleteEvent(TweetDeleteEvent { post_id, deleted_at: now }),
        ),
    }
}

/// The post that a compact creation tells of. It counts as a reply if it says so
/// or names what it answers.
pub open spec fn announced_post(event: TweetCreateEvent) -> LightPost {
    LightPost {
        post_id: event.post_id,
        author_id: event.author_id,
        created_at: event.created_at,
        in_reply_to_post_id: event.in_reply_to_post_id,
        in_reply_to_user_id: event.in_reply_to_user_id,
        is_retweet: event.is_retweet,
        is_reply: event.is_reply || event.in_reply_to_post_id is Some
            || event.in_reply_to_user_id is Some,
        source_post_id: event.source_post_id,
        source_user_id: event.source_user_id,
        has_video: event.has_video,
        conversation_id: event.conversation_id,
    }
}

} // verus!
