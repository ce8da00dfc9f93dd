use for_you_feed::candidate_pipeline::component::{Component, Duplicable};
use for_you_feed::candidate_pipeline::hydrator::Hydrator;
use for_you_feed::home_mixer::candidate::{CandidateHelpers, PhoenixScores, PostCandidate};
use for_you_feed::home_mixer::candidate_features::{
    GizmoduckUser, GizmoduckUserCounts, GizmoduckUserProfile, GizmoduckUserResult, MediaEntity,
    MediaInfo, PureCoreData, VideoInfo,
};
use for_you_feed::home_mixer::candidate_hydrators::common::tweet_ids;
use for_you_feed::home_mixer::candidate_hydrators::core_data_candidate_hydrator::CoreDataCandidateHydrator;
use for_you_feed::home_mixer::candidate_hydrators::gizmoduck_hydrator::GizmoduckCandidateHydrator;
use for_you_feed::home_mixer::candidate_hydrators::in_network_candidate_hydrator::InNetworkCandidateHydrator;
use for_you_feed::home_mixer::candidate_hydrators::subscription_hydrator::SubscriptionHydrator;
use for_you_feed::home_mixer::candidate_hydrators::vf_candidate_hydrator::{
    VFCandidateHydrator, VisibilityRequest,
};
use for_you_feed::home_mixer::candidate_hydrators::video_duration_candidate_hydrator::VideoDurationCandidateHydrator;
use for_you_feed::home_mixer::phoenix_candidate_pipeline::PhoenixHydrator;
use for_you_feed::home_mixer::query::{
    ImpressionBloomFilterEntry, ScoredPostsQuery, TwitterContextViewer, UserActionSequence,
};
use for_you_feed::home_mixer::server::{
    accept_request, get_scored_posts, to_scored_post, ScoredPostsRequest,
};
use for_you_feed::home_mixer::visibility::{FilteredReason, SafetyLevel};
use for_you_feed::score::Score;
use for_you_feed::status::Status;
use std::collections::HashMap;

fn query() -> ScoredPostsQuery {
    ScoredPostsQuery::new(
        9,
        1,
        "CH".to_string(),
        "de".to_string(),
        vec![],
        vec![],
        false,
        false,
        vec![],
        "id",
    )
}

fn post(tweet_id: i64) -> PostCandidate {
    PostCandidate { tweet_id, ..PostCandidate::default() }
}

fn full_post() -> PostCandidate {
    PostCandidate {
        tweet_id: -1,
        author_id: 2,
        tweet_text: "text".to_string(),
        in_reply_to_tweet_id: Some(3),
        retweeted_tweet_id: Some(4),
        retweeted_user_id: Some(5),
        phoenix_scores: PhoenixScores::default(),
        prediction_request_id: Some(6),
        last_scored_at_ms: Some(7),
        weighted_score: Some(Score { bits: 8 }),
        score: Some(Score { bits: 0.5f64.to_bits() }),
        served_type: Some(9),
        in_network: Some(true),
        ancestors: vec![10, 11],
        video_duration_ms: Some(12),
        author_followers_count: Some(13),
        author_screen_name: Some("author".to_string()),
        retweeted_screen_name: Some("source".to_string()),
        visibility_reason: Some(FilteredReason::Other(14)),
        subscription_author_id: Some(15),
    }
}

#[test]
fn default_candidates_are_blank() {
    let blank = PostCandidate::default();
    assert_eq!(blank.tweet_id, 0);
    assert_eq!(blank.tweet_text, "");
    assert_eq!(blank.phoenix_scores, PhoenixScores::default());
    assert_eq!(blank.phoenix_scores.dwell_time, None);
    assert!(blank.ancestors.is_empty());
}

#[test]
fn core_data_is_filled_in() {
    let data = PureCoreData {
        author_id: 2,
        text: "text".to_string(),
        source_tweet_id: Some(3),
        source_user_id: Some(4),
        in_reply_to_tweet_id: Some(5),
        in_reply_to_user_id: Some(6),
    };
    let answer = HashMap::from([(1, Some(data)), (2, None)]);
    let candidates = vec![post(1), post(2), post(3)];
    assert_eq!(tweet_ids(&candidates), vec![1, 2, 3]);
    let hydrated = CoreDataCandidateHydrator.hydrate(&candidates, Ok(answer)).unwrap();
    assert_eq!(
        hydrated[0],
        PostCandidate {
            author_id: 2,
            tweet_text: "text".to_string(),
            retweeted_tweet_id: Some(3),
            retweeted_user_id: Some(4),
            in_reply_to_tweet_id: Some(5),
            ..PostCandidate::default()
        }
    );
    assert_eq!(hydrated[1], PostCandidate::default());
    assert_eq!(hydrated[2], PostCandidate::default());
    let mut candidate = PostCandidate { author_id: 77, ..post(1) };
    CoreDataCandidateHydrator.update(&mut candidate, hydrated[0].clone());
    assert_eq!(candidate.author_id, 77);
    assert_eq!(candidate.tweet_id, 1);
    assert_eq!(candidate.tweet_text, "text");
    assert_eq!(
        CoreDataCandidateHydrator.hydrate(&candidates, Err("down".to_string())),
        Err("down".to_string())
    );
}

fn user(user_id: u64, screen_name: &str, followers_count: u32) -> Option<GizmoduckUserResult> {
    Some(GizmoduckUserResult {
        user: Some(GizmoduckUser {
            user_id,
            profile: GizmoduckUserProfile { screen_name: screen_name.to_string() },
            counts: GizmoduckUserCounts { followers_count },
        }),
    })
}

#[test]
fn users_are_filled_in() {
    let by = |author_id: u64, repeated: Option<u64>| PostCandidate {
        author_id,
        retweeted_user_id: repeated,
        ..post(1)
    };
    let candidates = vec![by(1, None), by(1, Some(2)), by(2, Some(1)), by(1, None)];
    // Each user is asked about once, where they come first.
    assert_eq!(GizmoduckCandidateHydrator.user_ids_to_fetch(&candidates), vec![1, 2]);
    let answer = HashMap::from([
        (1, user(1, "one", u32::MAX)),
        (2, Some(GizmoduckUserResult { user: None })),
    ]);
    let hydrated = GizmoduckCandidateHydrator.hydrate(&candidates, Ok(answer)).unwrap();
    assert_eq!(hydrated[0].author_screen_name, Some("one".to_string()));
    assert_eq!(hydrated[0].author_followers_count, Some(-1));
    assert_eq!(hydrated[1].retweeted_screen_name, None);
    assert_eq!(hydrated[2].author_screen_name, None);
    assert_eq!(hydrated[2].retweeted_screen_name, Some("one".to_string()));
    let mut candidate = full_post();
    GizmoduckCandidateHydrator.update(&mut candidate, hydrated[2].clone());
    assert_eq!(
        candidate,
        PostCandidate {
            author_followers_count: None,
            author_screen_name: None,
            retweeted_screen_name: Some("one".to_string()),
            ..full_post()
        }
    );
}

#[test]
fn network_is_the_reader_and_who_is_followed() {
    let mut query = query();
    query.user_features.followed_user_ids = vec![5, -1];
    let by = |author_id: u64| PostCandidate { author_id, ..post(1) };
    let candidates = vec![by(9), by(5), by(6), by(u64::MAX)];
    let hydrated = InNetworkCandidateHydrator.hydrate(&query, &candidates).unwrap();
    let flags: Vec<Option<bool>> = hydrated.iter().map(|c| c.in_network).collect();
    assert_eq!(flags, vec![Some(true), Some(true), Some(false), Some(true)]);
}

#[test]
fn subscriptions_are_filled_in() {
    let answer = HashMap::from([(1, Some(7)), (2, None)]);
    let hydrated =
        SubscriptionHydrator.hydrate(&vec![post(1), post(2), post(3)], Ok(answer)).unwrap();
    let authors: Vec<Option<u64>> = hydrated.iter().map(|c| c.subscription_author_id).collect();
    assert_eq!(authors, vec![Some(7), None, None]);
    assert!(SubscriptionHydrator.hydrate(&vec![], Err("x".to_string())).is_err());
}

#[test]
fn the_first_video_counts() {
    let video = |duration_millis: i32| MediaEntity {
        media_info: Some(MediaInfo::VideoInfo(VideoInfo { duration_millis })),
    };
    let image = MediaEntity { media_info: None };
    let answer = HashMap::from([
        (1, Some(vec![image, video(20), video(10)])),
        (2, Some(vec![image])),
        (3, None),
    ]);
    let candidates = vec![post(1), post(2), post(3), post(4)];
    let hydrated = VideoDurationCandidateHydrator.hydrate(&candidates, Ok(answer)).unwrap();
    let durations: Vec<Option<i32>> = hydrated.iter().map(|c| c.video_duration_ms).collect();
    assert_eq!(durations, vec![Some(20), None, None, None]);
}

#[test]
fn visibility_is_asked_by_network() {
    let from = |id: i64, in_network: Option<bool>| PostCandidate { in_network, ..post(id) };
    let candidates = vec![from(1, Some(true)), from(2, Some(false)), from(3, None)];
    let (inside, outside) = VFCandidateHydrator.requests(&query(), &candidates);
    let context = Some(TwitterContextViewer {
        user_id: 9,
        client_application_id: 1,
        request_country_code: "CH".to_string(),
        request_language_code: "de".to_string(),
    });
    assert_eq!(
        inside,
        Some(VisibilityRequest {
            tweet_ids: vec![1],
            safety_level: SafetyLevel::TimelineHome,
            for_user_id: 9,
            context: context.clone(),
        })
    );
    assert_eq!(
        outside,
        Some(VisibilityRequest {
            tweet_ids: vec![2, 3],
            safety_level: SafetyLevel::TimelineHomeRecommendations,
            for_user_id: 9,
            context,
        })
    );
    assert_eq!(VFCandidateHydrator.requests(&query(), &vec![]), (None, None));
}

#[test]
fn visibility_is_filled_in() {
    let reason = |handle: u64| Some(FilteredReason::Other(handle));
    let inside = HashMap::from([(1, reason(1)), (2, reason(2))]);
    let outside = HashMap::from([(2, None), (3, reason(3))]);
    let candidates = vec![post(1), post(2), post(3), post(4)];
    let hydrated =
        VFCandidateHydrator.hydrate(&candidates, Ok(inside.clone()), Ok(outside)).unwrap();
    let reasons: Vec<Option<FilteredReason>> =
        hydrated.iter().map(|c| c.visibility_reason).collect();
    assert_eq!(reasons, vec![reason(1), None, reason(3), None]);
    let first = || Err("first".to_string());
    let second = || Err("second".to_string());
    assert_eq!(
        VFCandidateHydrator.hydrate(&candidates, first(), second()),
        Err("first".to_string())
    );
    assert_eq!(
        VFCandidateHydrator.hydrate(&candidates, Ok(inside), second()),
        Err("second".to_string())
    );
}

#[test]
fn hydrators_keep_out_of_each_others_way() {
    let hydrators = vec![
        PhoenixHydrator::InNetwork(InNetworkCandidateHydrator),
        PhoenixHydrator::CoreData(CoreDataCandidateHydrator),
        PhoenixHydrator::VideoDuration(VideoDurationCandidateHydrator),
        PhoenixHydrator::Subscription(SubscriptionHydrator),
        PhoenixHydrator::Gizmoduck(GizmoduckCandidateHydrator),
        PhoenixHydrator::Visibility(VFCandidateHydrator),
    ];
    for (i, one) in hydrators.iter().enumerate() {
        for other in &hydrators[i + 1..] {
            let mut there = post(1);
            one.update(&mut there, full_post());
            other.update(&mut there, full_post());
            let mut back = post(1);
            other.update(&mut back, full_post());
            one.update(&mut back, full_post());
            assert_eq!(there, back);
            assert_eq!(there.tweet_id, 1);
            assert_eq!(there.author_id, 0);
        }
        assert!(one.enable(&query()));
    }
    assert_eq!(hydrators[5].name(), "VFCandidateHydrator");
}

#[test]
fn screen_names_are_collected() {
    let mut candidate = full_post();
    assert_eq!(
        candidate.get_screen_names(),
        HashMap::from([(2, "author".to_string()), (5, "source".to_string())])
    );
    // The user whose post is repeated prevails.
    candidate.retweeted_user_id = Some(2);
    assert_eq!(candidate.get_screen_names(), HashMap::from([(2, "source".to_string())]));
    candidate.retweeted_user_id = None;
    assert_eq!(candidate.get_screen_names(), HashMap::from([(2, "author".to_string())]));
    candidate.author_screen_name = None;
    assert!(candidate.get_screen_names().is_empty());
}

#[test]
fn copies_of_queries_and_candidates_hold_the_same() {
    assert_eq!(full_post().duplicate(), full_post());
    let mut full = query();
    full.seen_ids = vec![1];
    full.served_ids = vec![2];
    full.bloom_filter_entries = vec![ImpressionBloomFilterEntry { encoded: vec![3, 4] }];
    full.user_action_sequence = Some(UserActionSequence { encoded: vec![5] });
    full.user_features.muted_keywords = vec!["word".to_string()];
    full.user_features.subscribed_user_ids = vec![6];
    assert_eq!(full.duplicate(), full);
}

fn request(viewer_id: i64) -> ScoredPostsRequest {
    ScoredPostsRequest {
        viewer_id,
        client_app_id: 2,
        country_code: "CH".to_string(),
        language_code: "de".to_string(),
        seen_ids: vec![3],
        served_ids: vec![4],
        in_network_only: true,
        is_bottom_request: true,
        bloom_filter_entries: vec![],
    }
}

#[test]
fn requests_have_to_say_who_reads() {
    assert_eq!(
        accept_request(request(0), "id"),
        Err(Status::InvalidArgument("viewer_id must be specified".to_string()))
    );
}

#[test]
fn requests_become_queries() {
    let query = accept_request(request(-120), "id").unwrap();
    assert_eq!(query.user_id, -120);
    assert_eq!(query.request_id, "id--120");
    assert_eq!(query.seen_ids, vec![3]);
    assert_eq!(query.served_ids, vec![4]);
    assert!(query.in_network_only && query.is_bottom_request);
    assert_eq!(query.user_action_sequence, None);
    assert!(query.user_features.followed_user_ids.is_empty());
    for id in [1, 10, i64::MAX, i64::MIN] {
        let query = accept_request(request(id), "x").unwrap();
        assert_eq!(query.request_id, format!("x-{}", id));
    }
    assert_eq!(query.get_viewer().unwrap().client_application_id, 2);
}

#[test]
fn candidates_become_posts_of_the_answer() {
    let answer = get_scored_posts(vec![full_post(), post(1)]);
    assert_eq!(answer.len(), 2);
    let full = &answer[0];
    assert_eq!(full.tweet_id, u64::MAX);
    assert_eq!(full.author_id, 2);
    assert_eq!(full.retweeted_tweet_id, 4);
    assert_eq!(full.retweeted_user_id, 5);
    assert_eq!(full.in_reply_to_tweet_id, 3);
    assert_eq!(full.score.bits, 0.5f64.to_bits());
    assert!(full.in_network);
    assert_eq!(full.served_type, 9);
    assert_eq!(full.last_scored_timestamp_ms, 7);
    assert_eq!(full.prediction_request_id, 6);
    assert_eq!(full.ancestors, vec![10, 11]);
    assert_eq!(full.screen_names.len(), 2);
    assert_eq!(full.visibility_reason, Some(FilteredReason::Other(14)));
    let blank = to_scored_post(post(1));
    assert_eq!(blank.tweet_id, 1);
    assert_eq!(blank.retweeted_tweet_id, 0);
    assert_eq!(blank.score.bits, 0);
    assert!(!blank.in_network);
    assert_eq!(blank.served_type, 0);
    assert_eq!(blank.visibility_reason, None);
}
