use for_you_feed::status::Status;
use for_you_feed::thunder::admission::RequestPermits;
use for_you_feed::thunder::post_store::{PostStore, StoreLimits};
use for_you_feed::thunder::posts::LightPost;
use for_you_feed::thunder::service::{
    begin_request, end_request, following_fetched, get_in_network_posts, plan_retrieval,
    score_recent, GetInNetworkPostsRequest, ReadFigures, ServiceLimits, ServiceStep,
};
use for_you_feed::thunder::statistics::{analyze_post_statistics, PostStatistics};
use std::time::Instant;

fn limits() -> ServiceLimits {
    ServiceLimits { max_input_list_size: 2, max_posts_to_return: 3, max_videos_to_return: 1 }
}

fn request() -> GetInNetworkPostsRequest {
    GetInNetworkPostsRequest {
        user_id: 9,
        following_user_ids: vec![7, 8, 6],
        exclude_tweet_ids: vec![1, 2, 3],
        max_results: 0,
        is_video_request: false,
        debug: false,
    }
}

fn post(post_id: i64, author_id: i64, created_at: i64) -> LightPost {
    LightPost {
        post_id,
        author_id,
        created_at,
        in_reply_to_post_id: None,
        in_reply_to_user_id: None,
        is_retweet: false,
        is_reply: false,
        source_post_id: None,
        source_user_id: None,
        has_video: false,
        conversation_id: None,
    }
}

#[test]
fn requests_beyond_capacity_are_refused() {
    let mut permits = RequestPermits::new(1);
    assert!(begin_request(&mut permits, &request(), &limits()).is_ok());
    assert_eq!(
        begin_request(&mut permits, &request(), &limits()),
        Err(Status::ResourceExhausted("Server at capacity, please retry".to_string()))
    );
    assert_eq!((permits.in_flight(), permits.rejected()), (1, 1));
    assert!(begin_request(&mut RequestPermits::new(0), &request(), &limits()).is_err());
}

#[test]
fn permits_are_given_back_whatever_is_answered() {
    let mut permits = RequestPermits::new(1);
    for n in 0..3 {
        assert!(begin_request(&mut permits, &request(), &limits()).is_ok());
        assert_eq!(permits.in_flight(), 1);
        match n {
            0 => assert!(following_fetched(&mut permits, Err("down".to_string())).is_err()),
            1 => assert!(end_request(&mut permits, Err("panic".to_string())).is_err()),
            _ => permits.leave(),
        }
        assert_eq!((permits.in_flight(), permits.rejected()), (0, 0));
    }
    assert!(permits.enter());
    assert!(!permits.enter());
    permits.leave();
    assert!(permits.enter());
    assert_eq!((permits.in_flight(), permits.rejected()), (1, 1));
}

#[test]
fn named_accounts_are_used() {
    assert_eq!(
        begin_request(&mut RequestPermits::new(1), &request(), &limits()),
        Ok(ServiceStep::Retrieve { following_user_ids: vec![7, 8, 6] })
    );
}

#[test]
fn missing_accounts_are_fetched_only_while_debugging() {
    let mut permits = RequestPermits::new(2);
    let mut bare = request();
    bare.following_user_ids = vec![];
    assert_eq!(
        begin_request(&mut permits, &bare, &limits()),
        Ok(ServiceStep::Retrieve { following_user_ids: vec![] })
    );
    bare.debug = true;
    assert_eq!(
        begin_request(&mut permits, &bare, &limits()),
        Ok(ServiceStep::FetchFollowing { user_id: 9, limit: 2 })
    );
}

#[test]
fn fetched_accounts_are_used_or_the_failure_is_told() {
    let mut permits = RequestPermits::new(2);
    assert!(permits.enter() && permits.enter());
    assert_eq!(
        following_fetched(&mut permits, Ok(vec![5, 6])),
        Ok(ServiceStep::Retrieve { following_user_ids: vec![5, 6] })
    );
    assert_eq!(permits.in_flight(), 2);
    assert_eq!(
        following_fetched(&mut permits, Err("down".to_string())),
        Err(Status::Internal("Failed to fetch following list: down".to_string()))
    );
    assert_eq!(
        end_request(&mut permits, Err("panic".to_string())).err(),
        Some(Status::Internal("Failed to process posts: panic".to_string()))
    );
    assert_eq!(permits.in_flight(), 0);
}

#[test]
fn plans_cut_lists_and_settle_the_bound() {
    let plan = plan_retrieval(&request(), &vec![7, 8, 6], &limits());
    assert_eq!(plan.following_user_ids, vec![7, 8]);
    assert_eq!(plan.exclude_tweet_ids.len(), 2);
    assert!(plan.exclude_tweet_ids.contains(&1) && plan.exclude_tweet_ids.contains(&2));
    assert_eq!(plan.request_user_id, 9);
    assert_eq!(plan.max_results, 3);
    assert!(!plan.is_video_request);

    let mut video = request();
    video.is_video_request = true;
    assert_eq!(plan_retrieval(&video, &vec![], &limits()).max_results, 1);
    video.max_results = 40;
    assert_eq!(plan_retrieval(&video, &vec![], &limits()).max_results, 40);
}

#[test]
fn recent_posts_come_first_and_are_bounded() {
    let posts = vec![post(1, 7, 10), post(2, 7, 30), post(3, 7, 20), post(4, 7, 30)];
    let ids = |n: usize| -> Vec<i64> {
        score_recent(posts.clone(), n).iter().map(|p| p.post_id).collect()
    };
    assert_eq!(ids(10), vec![2, 4, 3, 1]);
    assert_eq!(ids(2), vec![2, 4]);
    assert!(ids(0).is_empty());
    assert!(score_recent(vec![], 5).is_empty());
}

#[test]
fn requests_are_answered_from_the_store() {
    let mut store = PostStore::new(
        1000,
        0,
        StoreLimits {
            delete_event_key: -1,
            max_original_posts_per_author: 5,
            max_reply_posts_per_author: 5,
            max_video_posts_per_author: 5,
            max_tiny_posts_per_user_scan: 5,
        },
    );
    let mut video = post(12, 8, 25);
    video.has_video = true;
    store.insert_posts_at(
        vec![post(10, 7, 10), post(11, 8, 20), video, post(2, 7, 30), post(13, 6, 40)],
        100,
    );
    let plan = plan_retrieval(&request(), &vec![7, 8, 6], &limits());
    let retrieval = get_in_network_posts(&store, &plan, Instant::now());
    let ids: Vec<i64> = retrieval.posts.iter().map(|p| p.post_id).collect();
    assert_eq!(ids, vec![12, 11, 10]);
    assert_eq!(retrieval.found.len(), 3);
    let asked = plan.following_user_ids.len();
    assert_eq!(retrieval.first_read.asked, asked);
    assert_eq!(retrieval.first_read.reached, asked);
    assert_eq!(retrieval.first_read.returned, 3);
    assert!(!retrieval.first_read.is_timed_out());
    let second = retrieval.second_read.unwrap();
    assert_eq!((second.reached, second.listed, second.returned), (asked, 0, 0));

    let mut wanted = request();
    wanted.is_video_request = true;
    let plan = plan_retrieval(&wanted, &vec![7, 8, 6], &limits());
    let retrieval = get_in_network_posts(&store, &plan, Instant::now());
    let ids: Vec<i64> = retrieval.posts.iter().map(|p| p.post_id).collect();
    assert_eq!(ids, vec![12]);
    assert_eq!(retrieval.second_read, None);
    let figures = ReadFigures { asked: 3, reached: 2, listed: 9, returned: 1 };
    assert!(figures.is_timed_out());
}

#[test]
fn statistics_of_posts() {
    let mut reply = post(3, 8, 15);
    reply.is_reply = true;
    let posts = vec![post(1, 7, 10), post(2, 7, 40), reply];
    assert_eq!(
        analyze_post_statistics(&posts, 100),
        Some(PostStatistics {
            total: 3,
            original_count: 2,
            reply_count: 1,
            unique_author_count: 2,
            time_since_most_recent: 60,
            time_range: 30,
        })
    );
    assert_eq!(analyze_post_statistics(&[], 100), None);
}
