use for_you_feed::thunder::post_store::{
    compacted_capacity, PostStore, StoreLimits, StoreStats,
};
use for_you_feed::thunder::posts::{LightPost, TinyPost, TweetDeleteEvent};
use std::collections::{HashSet, VecDeque};
use std::time::{Duration, Instant};

const DELETE_KEY: i64 = -1;

fn limits() -> StoreLimits {
    StoreLimits {
        delete_event_key: DELETE_KEY,
        max_original_posts_per_author: 3,
        max_reply_posts_per_author: 2,
        max_video_posts_per_author: 2,
        max_tiny_posts_per_user_scan: 5,
    }
}

fn store() -> PostStore {
    PostStore::new(1000, 0, limits())
}

fn post(post_id: i64, author_id: i64, created_at: i64) -> LightPost {
    LightPost {
        post_id,
        author_id,
        created_at,
        in_reply_to_post_id: None,
        in_reply_to_user_id: None,
        is_retweet: false,
        is_reply: false,
        source_post_id: None,
        source_user_id: None,
        has_video: false,
        conversation_id: None,
    }
}

fn ids(posts: &[LightPost]) -> Vec<i64> {
    posts.iter().map(|p| p.post_id).collect()
}

fn all(store: &PostStore, users: &[i64], exclude: &[i64], requester: i64) -> Vec<i64> {
    let exclude: HashSet<i64> = exclude.iter().copied().collect();
    ids(&store.get_all_posts_by_users(users, &exclude, Instant::now(), requester))
}

fn videos(store: &PostStore, users: &[i64]) -> Vec<i64> {
    ids(&store.get_videos_by_users(users, &HashSet::new(), Instant::now(), 99))
}

#[test]
fn tiny_post_holds_its_parts() {
    let tiny = TinyPost::new(3, 4);
    assert_eq!(tiny, TinyPost { post_id: 3, created_at: 4 });
}

#[test]
fn new_store_is_empty() {
    let store = store();
    assert_eq!(
        store.stats(),
        StoreStats {
            user_count: 0,
            total_posts: 0,
            deleted_posts: 0,
            original_posts_count: 0,
            secondary_posts_count: 0,
            video_posts_count: 0,
        }
    );
    assert!(all(&store, &[1, 2], &[], 9).is_empty());
}

#[test]
fn default_store_keeps_two_days() {
    let mut store = PostStore::with_default_retention(limits());
    let now: u64 = 1_000_000;
    store.insert_posts_at(
        vec![post(1, 7, 1_000_000 - 172_800), post(2, 7, 1_000_000 - 172_801)],
        now,
    );
    assert_eq!(all(&store, &[7], &[], 9), vec![1]);
}

#[test]
fn newest_post_is_read_first() {
    let mut store = store();
    store.insert_posts_at(vec![post(2, 7, 20), post(1, 7, 10), post(3, 7, 30)], 100);
    assert_eq!(all(&store, &[7], &[], 9), vec![3, 2, 1]);
}

#[test]
fn posts_from_the_future_and_old_posts_are_refused() {
    let mut store = store();
    // At time 2000 with a retention of 1000: 1000 is the oldest second allowed,
    // 1999 the newest.
    store.insert_posts_at(
        vec![post(1, 7, 2000), post(2, 7, 1999), post(3, 7, 1000), post(4, 7, 999)],
        2000,
    );
    assert_eq!(all(&store, &[7], &[], 9), vec![2, 3]);
}

#[test]
fn posts_with_equal_times_keep_their_order() {
    let mut store = store();
    store.insert_posts_at(vec![post(5, 7, 10), post(4, 7, 10), post(6, 7, 10)], 100);
    assert_eq!(all(&store, &[7], &[], 9), vec![6, 4, 5]);
}

#[test]
fn clock_insertion_takes_recent_posts() {
    let now = std::time::SystemTime::now()
        .duration_since(std::time::UNIX_EPOCH)
        .unwrap()
        .as_secs() as i64;
    let mut store = store();
    store.insert_posts(vec![post(1, 7, now - 5), post(2, 7, now - 5000), post(3, 7, now + 5000)]);
    assert_eq!(all(&store, &[7], &[], 9), vec![1]);
    assert_eq!(store.trim_old_posts(), 0);
    store.finalize_init();
    assert_eq!(all(&store, &[7], &[], 9), vec![1]);
}

#[test]
fn inserting_again_lists_once_and_replaces_the_data() {
    let mut store = store();
    store.insert_posts_at(vec![post(1, 7, 10)], 100);
    let before = store.stats();
    store.insert_posts_at(vec![post(1, 7, 10)], 100);
    assert_eq!(store.stats(), before);
    let mut changed = post(1, 7, 10);
    changed.conversation_id = Some(44);
    store.insert_posts_at(vec![changed], 100);
    assert_eq!(store.stats(), before);
    let found = store.get_all_posts_by_users(&[7], &HashSet::new(), Instant::now(), 9);
    assert_eq!(found, vec![changed]);
}

#[test]
fn marked_posts_are_gone_and_stay_out() {
    let mut store = store();
    store.insert_posts_at(vec![post(1, 7, 10), post(2, 7, 20)], 100);
    store.mark_as_deleted(vec![
        TweetDeleteEvent { post_id: 1, deleted_at: 50 },
        TweetDeleteEvent { post_id: 3, deleted_at: 51 },
    ]);
    assert_eq!(all(&store, &[7], &[], 9), vec![2]);
    store.insert_posts_at(vec![post(1, 7, 10), post(3, 7, 30)], 100);
    assert_eq!(all(&store, &[7], &[], 9), vec![2]);
    let stats = store.stats();
    assert_eq!(stats.deleted_posts, 2);
    assert_eq!(stats.total_posts, 1);
    assert_eq!(stats.user_count, 2);
    assert_eq!(stats.original_posts_count, 4);
}

#[test]
fn excluded_posts_are_not_served() {
    let mut store = store();
    store.insert_posts_at(vec![post(1, 7, 10), post(2, 7, 20)], 100);
    assert_eq!(all(&store, &[7], &[2], 9), vec![1]);
}

#[test]
fn retweets_of_the_reader_are_not_served() {
    let mut store = store();
    let mut retweet = post(1, 7, 10);
    retweet.is_retweet = true;
    retweet.source_user_id = Some(9);
    store.insert_posts_at(vec![retweet], 100);
    assert!(all(&store, &[7], &[], 9).is_empty());
    assert_eq!(all(&store, &[7], &[], 8), vec![1]);
}

#[test]
fn posts_per_author_are_capped() {
    let mut store = store();
    let posts: Vec<LightPost> = (1..=6).map(|i| post(i, 7, 10 * i)).collect();
    store.insert_posts_at(posts, 100);
    assert_eq!(all(&store, &[7], &[], 9), vec![6, 5, 4]);
}

#[test]
fn scan_is_capped() {
    let mut store = store();
    let mut posts: Vec<LightPost> = (1..=7).map(|i| post(i, 7, 10 * i)).collect();
    // The five newest entries are retweets of the reader in the same timeline.
    for p in posts.iter_mut() {
        p.is_retweet = true;
        if p.post_id > 2 {
            p.source_user_id = Some(9);
        }
    }
    store.insert_posts_at(posts, 100);
    assert!(all(&store, &[7], &[], 9).is_empty());
    assert_eq!(all(&store, &[7], &[7], 9), vec![2]);
}

#[test]
fn answers_follow_the_order_of_the_users() {
    let mut store = store();
    store.insert_posts_at(vec![post(1, 7, 10), post(2, 8, 20)], 100);
    assert_eq!(all(&store, &[7, 8], &[], 9), vec![1, 2]);
    assert_eq!(all(&store, &[8, 7], &[], 9), vec![2, 1]);
    assert_eq!(all(&store, &[8], &[], 9), vec![2]);
}

#[test]
fn originals_come_before_replies_and_retweets() {
    let mut store = store();
    let mut retweet = post(3, 7, 30);
    retweet.is_retweet = true;
    store.insert_posts_at(vec![post(1, 7, 10), retweet], 100);
    assert_eq!(all(&store, &[7], &[], 9), vec![1, 3]);
}

#[test]
fn replies_are_shown_in_followed_conversations() {
    let mut store = store();
    let original = post(1, 50, 10);
    let mut reply_to_original = post(2, 7, 20);
    reply_to_original.is_reply = true;
    reply_to_original.in_reply_to_post_id = Some(1);
    let mut first_answer = post(3, 51, 21);
    first_answer.is_reply = true;
    first_answer.in_reply_to_post_id = Some(1);
    let mut to_followed = post(4, 7, 30);
    to_followed.is_reply = true;
    to_followed.in_reply_to_post_id = Some(3);
    to_followed.in_reply_to_user_id = Some(7);
    to_followed.conversation_id = Some(1);
    store.insert_posts_at(vec![original, reply_to_original, first_answer, to_followed], 100);
    assert_eq!(all(&store, &[7], &[], 9), vec![4, 2]);

    // Not followed, another conversation, or an unknown parent.
    let mut store = self::store();
    let mut to_stranger = to_followed;
    to_stranger.post_id = 5;
    to_stranger.in_reply_to_user_id = Some(51);
    let mut elsewhere = to_followed;
    elsewhere.post_id = 6;
    elsewhere.conversation_id = Some(2);
    store.insert_posts_at(vec![original, first_answer, to_stranger, elsewhere], 100);
    assert!(all(&store, &[7], &[], 9).is_empty());
    let mut orphan = to_followed;
    orphan.post_id = 7;
    orphan.in_reply_to_post_id = Some(1234);
    store.insert_posts_at(vec![orphan], 100);
    assert!(all(&store, &[7], &[], 9).is_empty());
}

#[test]
fn videos_are_listed_by_their_own_or_their_source() {
    let mut store = store();
    let mut video = post(1, 7, 10);
    video.has_video = true;
    let mut retweet = post(2, 8, 20);
    retweet.is_retweet = true;
    retweet.source_post_id = Some(1);
    let mut plain = post(3, 8, 30);
    plain.is_retweet = true;
    plain.source_post_id = Some(77);
    store.insert_posts_at(vec![video, retweet, plain], 100);
    assert_eq!(videos(&store, &[7, 8]), vec![1, 2]);
}

#[test]
fn replies_are_never_videos() {
    let mut store = store();
    let mut reply = post(1, 7, 10);
    reply.is_reply = true;
    reply.has_video = true;
    store.insert_posts_at(vec![reply], 100);
    assert!(videos(&store, &[7]).is_empty());
    // A retweet of a reply does not take its video over.
    let mut retweet = post(2, 8, 20);
    retweet.is_retweet = true;
    retweet.source_post_id = Some(1);
    store.insert_posts_at(vec![retweet], 100);
    assert!(videos(&store, &[8]).is_empty());
    assert_eq!(store.stats().video_posts_count, 0);
}

#[test]
fn trimming_drops_what_is_older_than_the_retention() {
    let mut store = store();
    let mut reply = post(3, 8, 150);
    reply.is_reply = true;
    let mut video = post(2, 7, 200);
    video.has_video = true;
    store.insert_posts_at(vec![post(1, 7, 100), video, reply], 300);
    assert_eq!(store.trim_old_posts_at(1100), 0);
    // 100 is now 1001 seconds old.
    assert_eq!(store.trim_old_posts_at(1101), 1);
    assert_eq!(store.stats().total_posts, 2);
    assert_eq!(store.trim_old_posts_at(1101), 0);
    assert_eq!(store.trim_old_posts_at(1201), 2);
    assert_eq!(
        store.stats(),
        StoreStats {
            user_count: 0,
            total_posts: 0,
            deleted_posts: 0,
            original_posts_count: 0,
            secondary_posts_count: 0,
            video_posts_count: 0,
        }
    );
}

#[test]
fn trimming_forgets_deletions_in_due_time() {
    let mut store = store();
    store.mark_as_deleted(vec![TweetDeleteEvent { post_id: 1, deleted_at: 100 }]);
    store.insert_posts_at(vec![post(1, 7, 90)], 200);
    assert!(all(&store, &[7], &[], 9).is_empty());
    assert_eq!(store.trim_old_posts_at(1101), 1);
    assert_eq!(store.stats().deleted_posts, 0);
    store.insert_posts_at(vec![post(1, 7, 1000)], 1101);
    assert_eq!(all(&store, &[7], &[], 9), vec![1]);
}

#[test]
fn trimming_keeps_entries_from_the_future() {
    let mut store = store();
    store.mark_as_deleted(vec![TweetDeleteEvent { post_id: 1, deleted_at: 5000 }]);
    assert_eq!(store.trim_old_posts_at(100), 0);
    assert_eq!(store.stats().deleted_posts, 1);
}

#[test]
fn trimming_stops_at_the_first_entry_that_stays() {
    let mut store = store();
    store.insert_posts_at(vec![post(1, 7, 500)], 600);
    store.insert_posts_at(vec![post(2, 7, 100)], 600);
    // The old entry stands behind a young one, so it is not reached.
    assert_eq!(store.trim_old_posts_at(1400), 0);
    store.sort_all_user_posts();
    assert_eq!(store.trim_old_posts_at(1400), 1);
    assert_eq!(all(&store, &[7], &[], 9), vec![1]);
}

#[test]
fn sorting_puts_the_newest_last() {
    let mut store = store();
    store.insert_posts_at(vec![post(1, 7, 500)], 600);
    store.insert_posts_at(vec![post(2, 7, 100)], 600);
    assert_eq!(all(&store, &[7], &[], 9), vec![2, 1]);
    store.sort_all_user_posts();
    assert_eq!(all(&store, &[7], &[], 9), vec![1, 2]);
}

#[test]
fn finalizing_sorts_and_trims() {
    let mut store = store();
    store.insert_posts_at(vec![post(1, 7, 500), post(3, 7, 550)], 600);
    store.insert_posts_at(vec![post(2, 7, 100)], 600);
    store.mark_as_deleted(vec![TweetDeleteEvent { post_id: 3, deleted_at: 560 }]);
    store.finalize_init_at(1400);
    assert_eq!(all(&store, &[7], &[], 9), vec![1]);
    assert_eq!(store.stats().total_posts, 1);
    assert_eq!(store.stats().original_posts_count, 3);
}

#[test]
fn a_cleared_store_answers_with_nothing() {
    let mut store = store();
    let mut video = post(1, 7, 10);
    video.has_video = true;
    store.insert_posts_at(vec![video], 100);
    store.mark_as_deleted(vec![TweetDeleteEvent { post_id: 5, deleted_at: 50 }]);
    store.clear();
    assert!(all(&store, &[7], &[], 9).is_empty());
    assert!(videos(&store, &[7]).is_empty());
    assert_eq!(store.stats().deleted_posts, 0);
    assert_eq!(store.stats().total_posts, 0);
    store.insert_posts_at(vec![post(5, 7, 10)], 100);
    assert_eq!(all(&store, &[7], &[], 9), vec![5]);
}

#[test]
fn a_query_that_is_out_of_time_stops() {
    let mut store = PostStore::new(1000, 1, limits());
    store.insert_posts_at(vec![post(1, 7, 10)], 100);
    let start = Instant::now();
    while start.elapsed() < Duration::from_millis(5) {}
    let found = store.get_all_posts_by_users(&[7], &HashSet::new(), start, 9);
    assert!(found.is_empty());
    assert!(store.is_out_of_time(1));
    assert!(!store.is_out_of_time(0));
    assert!(!self::store().is_out_of_time(u128::MAX));
    let table: dashmap::DashMap<i64, VecDeque<TinyPost>> = dashmap::DashMap::new();
    table.insert(7, VecDeque::from(vec![TinyPost::new(1, 10)]));
    let nobody = HashSet::new();
    assert!(store.read_next(&table, 7, 5, &HashSet::new(), &nobody, 1, 9).is_none());
    let read = store.read_next(&table, 7, 5, &HashSet::new(), &nobody, 0, 9).unwrap();
    assert_eq!(ids(&read.posts), vec![1]);
    let (original, secondary) = store.read_all_posts_by_users(&[7], &HashSet::new(), start, 9);
    assert_eq!((original.posts.len(), original.reached, original.listed), (0, 0, 0));
    assert_eq!(secondary.reached, 0);
    // A store with a generous timeout reaches everyone.
    let mut patient = PostStore::new(1000, 3_600_000, limits());
    patient.insert_posts_at(vec![post(1, 7, 10)], 100);
    assert_eq!(all(&patient, &[7], &[], 9), vec![1]);
}

#[test]
fn any_table_of_timelines_can_be_queried() {
    let mut store = store();
    store.insert_posts_at(vec![post(1, 7, 10), post(2, 8, 20)], 100);
    let table: dashmap::DashMap<i64, VecDeque<TinyPost>> = dashmap::DashMap::new();
    table.insert(70, VecDeque::from(vec![TinyPost::new(1, 10), TinyPost::new(2, 20)]));
    let read = store.read_next(&table, 70, 1, &HashSet::new(), &HashSet::new(), u128::MAX, 9);
    let read = read.unwrap();
    assert_eq!(ids(&read.posts), vec![2]);
    assert_eq!(read.listed, 2);
    let found = store.get_posts_from_map(
        &table,
        &[70, 71],
        5,
        &HashSet::new(),
        &HashSet::new(),
        Instant::now(),
        9,
    );
    assert_eq!(ids(&found), vec![2, 1]);
}

#[test]
fn ordered_insertion_keeps_timelines_in_order() {
    let mut store = store();
    store.insert_posts_at(vec![post(2, 7, 20), post(1, 7, 10)], 100);
    store.insert_posts_at(vec![post(4, 7, 40), post(3, 7, 30)], 100);
    let before = all(&store, &[7], &[], 9);
    store.sort_all_user_posts();
    assert_eq!(all(&store, &[7], &[], 9), before);
    assert_eq!(before, vec![4, 3, 2]);
}

#[test]
fn timelines_with_too_much_room_are_cut_down() {
    assert_eq!(compacted_capacity(10, 20), None);
    assert_eq!(compacted_capacity(10, 21), Some(15));
    assert_eq!(compacted_capacity(7, 64), Some(10));
    assert_eq!(compacted_capacity(0, 1), Some(0));
    assert_eq!(compacted_capacity(0, 0), None);
    assert_eq!(compacted_capacity(usize::MAX, usize::MAX), None);
}

#[test]
fn only_an_original_post_passes_its_video_on() {
    let mut store = store();
    let mut original = post(1, 7, 10);
    original.has_video = true;
    let mut first = post(2, 8, 20);
    first.is_retweet = true;
    first.has_video = true;
    first.source_post_id = Some(1);
    let mut second = post(3, 6, 30);
    second.is_retweet = true;
    second.source_post_id = Some(2);
    let mut direct = post(4, 5, 40);
    direct.is_retweet = true;
    direct.source_post_id = Some(1);
    store.insert_posts_at(vec![original, first, second, direct], 100);
    assert_eq!(videos(&store, &[7, 8]), vec![1, 2]);
    assert!(videos(&store, &[6]).is_empty());
    assert_eq!(videos(&store, &[5]), vec![4]);
}

#[test]
fn reads_say_how_far_they_came() {
    let mut store = store();
    let mut video = post(3, 8, 30);
    video.has_video = true;
    let mut reply = post(4, 7, 40);
    reply.is_reply = true;
    reply.in_reply_to_post_id = Some(99);
    store.insert_posts_at(vec![post(1, 7, 10), post(2, 7, 20), video, reply], 100);
    let exclude = HashSet::from([2]);
    let (original, secondary) =
        store.read_all_posts_by_users(&[7, 8, 7], &exclude, Instant::now(), 9);
    assert_eq!(ids(&original.posts), vec![1, 3, 1]);
    assert_eq!((original.reached, original.listed), (3, 5));
    // Fewer users are answered with the beginning of that.
    let (part, _) = store.read_all_posts_by_users(&[7, 8], &exclude, Instant::now(), 9);
    assert!(original.posts.starts_with(&part.posts));
    assert_eq!(ids(&part.posts), vec![1, 3]);
    assert!(secondary.posts.is_empty());
    assert_eq!((secondary.reached, secondary.listed), (3, 2));
    let read = store.read_videos_by_users(&[7, 8], &exclude, Instant::now(), 9);
    assert_eq!(ids(&read.posts), vec![3]);
    assert_eq!((read.reached, read.listed), (2, 1));
}

#[test]
fn withdrawals_prevail_over_any_order_of_batches() {
    let mut store = store();
    let gone = |id: i64| TweetDeleteEvent { post_id: id, deleted_at: 50 };
    store.insert_posts_at(vec![post(1, 7, 10)], 100);
    store.mark_as_deleted(vec![gone(2)]);
    store.insert_posts_at(vec![post(2, 7, 20), post(3, 7, 30)], 100);
    store.mark_as_deleted(vec![gone(1)]);
    store.insert_posts_at(vec![post(1, 7, 10), post(2, 7, 20)], 100);
    assert_eq!(all(&store, &[7], &[], 9), vec![3]);
}
