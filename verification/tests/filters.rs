use for_you_feed::candidate_pipeline::component::Component;
use for_you_feed::candidate_pipeline::filter::{Filter, FilterResult};
use for_you_feed::home_mixer::candidate::PostCandidate;
use for_you_feed::home_mixer::filters::age_filter::AgeFilter;
use for_you_feed::home_mixer::filters::author_socialgraph_filter::AuthorSocialgraphFilter;
use for_you_feed::home_mixer::filters::common::holds_id;
use for_you_feed::home_mixer::filters::core_data_hydration_filter::CoreDataHydrationFilter;
use for_you_feed::home_mixer::filters::dedup_conversation_filter::{
    get_conversation_id, DedupConversationFilter,
};
use for_you_feed::home_mixer::filters::drop_duplicates_filter::DropDuplicatesFilter;
use for_you_feed::home_mixer::filters::ineligible_subscription_filter::IneligibleSubscriptionFilter;
use for_you_feed::home_mixer::filters::muted_keyword_filter::MutedKeywordFilter;
use for_you_feed::home_mixer::filters::previously_seen_posts_filter::{
    PreviouslySeenPostsFilter, RelatedPost,
};
use for_you_feed::home_mixer::filters::previously_served_posts_filter::PreviouslyServedPostsFilter;
use for_you_feed::home_mixer::filters::retweet_deduplication_filter::RetweetDeduplicationFilter;
use for_you_feed::home_mixer::filters::self_tweet_filter::SelfTweetFilter;
use for_you_feed::home_mixer::filters::vf_filter::{should_drop, VFFilter};
use for_you_feed::home_mixer::query::ScoredPostsQuery;
use for_you_feed::home_mixer::visibility::{Action, FilteredReason, SafetyResult};
use for_you_feed::score::Score;
use for_you_feed::text::is_blank;

fn query() -> ScoredPostsQuery {
    ScoredPostsQuery::new(
        9,
        1,
        "CH".to_string(),
        "de".to_string(),
        vec![],
        vec![],
        false,
        false,
        vec![],
        "id",
    )
}

fn post(tweet_id: i64) -> PostCandidate {
    PostCandidate { tweet_id, ..PostCandidate::default() }
}

fn posts(ids: &[i64]) -> Vec<PostCandidate> {
    ids.iter().map(|id| post(*id)).collect()
}

fn ids(candidates: &[PostCandidate]) -> Vec<i64> {
    candidates.iter().map(|c| c.tweet_id).collect()
}

fn parts(result: Result<FilterResult<PostCandidate>, String>) -> (Vec<i64>, Vec<i64>) {
    let result = result.unwrap();
    (ids(&result.kept), ids(&result.removed))
}

fn score(value: f64) -> Option<Score> {
    Some(Score { bits: value.to_bits() })
}

#[test]
fn old_posts_and_posts_of_unknown_age_are_removed() {
    let filter = AgeFilter::new(1_000);
    let ages = vec![Some(1_000), Some(1_001), None, Some(0)];
    let result = filter.filter(&query(), posts(&[1, 2, 3, 4]), &ages);
    assert_eq!(parts(result), (vec![1, 4], vec![2, 3]));
    assert!(filter.is_within_age(Some(1_000)));
    assert!(!filter.is_within_age(None));
    assert_eq!(filter.name(), "AgeFilter");
}

#[test]
fn posts_of_blocked_and_muted_authors_are_removed() {
    let by = |id: i64, author_id: u64| PostCandidate { author_id, ..post(id) };
    let candidates = || vec![by(1, 10), by(2, 20), by(3, 30), by(4, u64::MAX)];
    let mut query = query();
    let result = AuthorSocialgraphFilter.filter(&query, candidates(), &());
    assert_eq!(parts(result), (vec![1, 2, 3, 4], vec![]));
    query.user_features.blocked_user_ids = vec![20];
    query.user_features.muted_user_ids = vec![30, -1];
    let result = AuthorSocialgraphFilter.filter(&query, candidates(), &());
    assert_eq!(parts(result), (vec![1], vec![2, 3, 4]));
}

#[test]
fn posts_without_author_or_text_are_removed() {
    let with = |id: i64, author_id: u64, text: &str| PostCandidate {
        author_id,
        tweet_text: text.to_string(),
        ..post(id)
    };
    let candidates = vec![
        with(1, 5, "hello"),
        with(2, 0, "hello"),
        with(3, 5, ""),
        with(4, 5, " \t\n\u{3000}\u{a0}"),
        with(5, 5, "  x "),
    ];
    let result = CoreDataHydrationFilter.filter(&query(), candidates, &());
    assert_eq!(parts(result), (vec![1, 5], vec![2, 3, 4]));
}

#[test]
fn blank_texts_are_those_that_trimming_empties() {
    let mut texts: Vec<String> = vec!["".to_string(), "a ".to_string(), "\u{200b}".to_string()];
    for c in (0u32..0x3100).filter_map(char::from_u32) {
        texts.push(c.to_string());
    }
    for text in texts {
        assert_eq!(is_blank(&text), text.trim().is_empty(), "{:?}", text);
    }
}

#[test]
fn the_best_of_each_conversation_is_kept() {
    let with = |id: i64, ancestors: Vec<u64>, value: Option<Score>| PostCandidate {
        ancestors,
        score: value,
        ..post(id)
    };
    let candidates = vec![
        with(10, vec![3, 2, 5], score(1.0)),
        with(11, vec![], score(0.5)),
        with(12, vec![2], score(2.0)),
        with(13, vec![2, 9], score(2.0)),
        with(14, vec![11], None),
        with(15, vec![7], None),
        with(16, vec![7], score(-1.0)),
    ];
    let result = DedupConversationFilter.filter(&query(), candidates, &());
    assert_eq!(parts(result), (vec![12, 11, 15], vec![10, 13, 14, 16]));
    assert_eq!(get_conversation_id(&post(-1)), u64::MAX);
    assert_eq!(get_conversation_id(&with(1, vec![8, 4, 6], None)), 4);
}

#[test]
fn conversations_keep_their_order_and_the_first_of_the_best() {
    let with = |id: i64, conversation: u64, value: f64| PostCandidate {
        ancestors: vec![conversation],
        score: score(value),
        ..post(id)
    };
    let candidates = vec![
        with(1, 9, 1.0),
        with(2, 4, 5.0),
        with(3, 9, 2.0),
        with(4, 4, 5.0),
        with(5, 9, 2.0),
        with(6, 7, -1.0),
    ];
    let once = DedupConversationFilter.filter(&query(), candidates, &()).unwrap();
    let conversations: Vec<u64> = once.kept.iter().map(get_conversation_id).collect();
    assert_eq!(conversations, vec![9, 4, 7]);
    let again = DedupConversationFilter.filter(&query(), once.kept, &());
    assert_eq!(parts(again), (vec![3, 2, 6], vec![]));
}

#[test]
fn a_score_that_is_no_number_never_wins() {
    let with = |id: i64, value: f64| PostCandidate {
        ancestors: vec![1],
        score: score(value),
        ..post(id)
    };
    let result = DedupConversationFilter.filter(
        &query(),
        vec![with(2, 1.0), with(3, f64::NAN), with(4, 2.0)],
        &(),
    );
    assert_eq!(parts(result), (vec![4], vec![3, 2]));
}

#[test]
fn repeated_posts_are_removed() {
    let result = DropDuplicatesFilter.filter(&query(), posts(&[5, 3, 5, 4, 3]), &());
    assert_eq!(parts(result), (vec![5, 3, 4], vec![5, 3]));
    let again = DropDuplicatesFilter.filter(&query(), posts(&[5, 3, 4]), &());
    assert_eq!(parts(again), (vec![5, 3, 4], vec![]));
}

#[test]
fn repeated_content_is_removed() {
    let retweet = |id: i64, source: u64| PostCandidate {
        retweeted_tweet_id: Some(source),
        ..post(id)
    };
    let candidates = vec![retweet(1, 100), post(100), post(200), retweet(2, 200), retweet(3, 300)];
    let result = RetweetDeduplicationFilter.filter(&query(), candidates, &());
    assert_eq!(parts(result), (vec![1, 200, 3], vec![100, 2]));
}

#[test]
fn posts_for_subscribers_need_a_subscription() {
    let for_subscribers = |id: i64, author: u64| PostCandidate {
        subscription_author_id: Some(author),
        ..post(id)
    };
    let mut query = query();
    query.user_features.subscribed_user_ids = vec![40, -2];
    let candidates =
        vec![post(1), for_subscribers(2, 40), for_subscribers(3, 41), for_subscribers(4, u64::MAX - 1)];
    let result = IneligibleSubscriptionFilter.filter(&query, candidates, &());
    assert_eq!(parts(result), (vec![1, 2, 4], vec![3]));
}

#[test]
fn posts_with_muted_keywords_are_removed() {
    let mut query = query();
    let filter = MutedKeywordFilter::new();
    let matches = vec![true, false, true];
    let result = filter.filter(&query, posts(&[1, 2, 3]), &matches);
    assert_eq!(parts(result), (vec![1, 2, 3], vec![]));
    query.user_features.muted_keywords = vec!["spoiler".to_string()];
    let result = filter.filter(&query, posts(&[1, 2, 3]), &matches);
    assert_eq!(parts(result), (vec![2], vec![1, 3]));
}

#[test]
fn seen_posts_are_removed() {
    let mut query = query();
    query.seen_ids = vec![2, 30];
    let related = |post_id: i64, may_be_seen: bool| RelatedPost { post_id, may_be_seen };
    let evidence = vec![
        vec![related(1, false)],
        vec![related(2, false)],
        vec![related(3, false), related(30, false)],
        vec![related(4, true)],
        vec![],
    ];
    let result = PreviouslySeenPostsFilter.filter(&query, posts(&[1, 2, 3, 4, 5]), &evidence);
    assert_eq!(parts(result), (vec![1, 5], vec![2, 3, 4]));
}

#[test]
fn served_posts_are_removed_while_scrolling_on() {
    let mut query = query();
    query.served_ids = vec![7];
    assert!(!PreviouslyServedPostsFilter.enable(&query));
    query.is_bottom_request = true;
    assert!(PreviouslyServedPostsFilter.enable(&query));
    let evidence = vec![vec![1, 7], vec![2]];
    let result = PreviouslyServedPostsFilter.filter(&query, posts(&[1, 2]), &evidence);
    assert_eq!(parts(result), (vec![2], vec![1]));
}

#[test]
fn own_posts_are_removed() {
    let by = |id: i64, author_id: u64| PostCandidate { author_id, ..post(id) };
    let result = SelfTweetFilter.filter(&query(), vec![by(1, 9), by(2, 8)], &());
    assert_eq!(parts(result), (vec![2], vec![1]));
}

#[test]
fn posts_that_are_not_to_be_shown_are_removed() {
    let rule = |action: Action| Some(FilteredReason::SafetyResult(SafetyResult { action, handle: 1 }));
    let with = |id: i64, reason: Option<FilteredReason>| PostCandidate {
        visibility_reason: reason,
        ..post(id)
    };
    let candidates = vec![
        with(1, None),
        with(2, rule(Action::Drop(3))),
        with(3, rule(Action::Other(3))),
        with(4, Some(FilteredReason::Other(5))),
    ];
    let result = VFFilter.filter(&query(), candidates, &());
    assert_eq!(parts(result), (vec![1, 3], vec![2, 4]));
    assert!(should_drop(&rule(Action::Drop(0))));
    assert!(!should_drop(&None));
}

#[test]
fn ids_are_found_in_lists() {
    assert!(holds_id(&vec![1, 2], 2));
    assert!(!holds_id(&vec![1, 2], 3));
}
