//! The filters of the feed.

pub mod age_filter;
pub mod author_socialgraph_filter;
pub mod common;
pub mod core_data_hydration_filter;
pub mod dedup_conversation_filter;
pub mod drop_duplicates_filter;
pub mod ineligible_subscription_filter;
pub mod laws;
pub mod muted_keyword_filter;
pub mod previously_seen_posts_filter;
pub mod previously_served_posts_filter;
pub mod retweet_deduplication_filter;
pub mod rule_laws;
pub mod self_tweet_filter;
pub mod vf_filter;
