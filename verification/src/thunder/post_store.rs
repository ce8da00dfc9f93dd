//! The in-memory store of recent posts, grouped by author.

use dashmap::DashMap;
use std::collections::{HashSet, VecDeque};
use std::time::Instant;
use vstd::prelude::*;

use crate::ordering::{lemma_order_sorts, sort_copies};
use crate::seqs::{
    first, lemma_filter_prefix, lemma_filter_step, lemma_next_is_new, lemma_one_more,
};
use crate::thunder::clock::{elapsed_millis, unix_seconds};
use crate::thunder::posts::{LightPost, TinyPost, TweetDeleteEvent};
use crate::thunder::store_model::{
    admitted, empty_store, expired_count, expired_front, expired_ids, finalized, ids_of, insert_one,
    inserted, is_answer, is_fresh, is_reply_shown, is_served, kept_back, listed_by, listed_entries,
    mark_one, marked, pushed, scanned, served, served_all, sorted_store, sorted_table,
    sorted_timeline, sum_over, timeline_of, trim_one, trimmed, trimmed_entries, trimmed_table,
    Query, StoreState,
};
use crate::thunder::store_sums::lemma_sum_insert;
use crate::thunder::tables::{
    mark_contains, mark_table, post_get, post_table, table_clear, table_insert, table_keys,
    table_len, table_new, table_remove, timeline_get, timeline_remove_if_empty, timeline_table,
    timeline_take,
};

verus! {

broadcast use vstd::std_specs::hash::group_hash_axioms;

/// The bounds that the store works within.
#[derive(Clone, Copy, Debug, PartialEq, Eq, Structural)]
pub struct StoreLimits {
    /// The user id under which deletions are listed.
    pub delete_event_key: i64,
    /// How many original posts of one author a query hands out.
    pub max_original_posts_per_author: usize,
    /// How many replies and retweets of one author a query hands out.
    pub max_reply_posts_per_author: usize,
    /// How many video posts of one author a query hands out.
    pub max_video_posts_per_author: usize,
    /// How many entries of one timeline a query looks at.
    pub max_tiny_posts_per_user_scan: usize,
}

/// How the store was set up.
#[derive(Clone, Copy, Debug, PartialEq, Eq, Structural)]
pub struct StoreConfig {
    /// For how many seconds a post is kept.
    pub retention_seconds: u64,
    /// After how many milliseconds a query stops; 0 for never.
    pub request_timeout_ms: u64,
    pub limits: StoreLimits,
}

/// What one user's timeline yields.
#[derive(Clone, Debug, PartialEq, Eq)]
pub struct TimelineRead {
    pub posts: Vec<LightPost>,
    /// How many entries the timeline has.
    pub listed: usize,
}

/// What the timelines of several users yield.
#[derive(Clone, Debug, PartialEq, Eq)]
pub struct UsersRead {
    pub posts: Vec<LightPost>,
    /// How many of the users were reached before the time was up.
    pub reached: usize,
    /// How many entries the timelines of those users have.
    pub listed: usize,
}

/// Recent posts by author, with the marks of those that were withdrawn.
pub struct PostStore {
    posts: DashMap<i64, LightPost>,
    original_posts_by_user: DashMap<i64, VecDeque<TinyPost>>,
    secondary_posts_by_user: DashMap<i64, VecDeque<TinyPost>>,
    video_posts_by_user: DashMap<i64, VecDeque<TinyPost>>,
    deleted_posts: DashMap<i64, bool>,
    config: StoreConfig,
}

impl View for PostStore {
    type V = StoreState;

    closed spec fn view(&self) -> StoreState {
        StoreState {
            posts: post_table(self.posts),
            original: timeline_table(self.original_posts_by_user),
            secondary: timeline_table(self.secondary_posts_by_user),
            video: timeline_table(self.video_posts_by_user),
            deleted: mark_table(self.deleted_posts).dom(),
        }
    }
}

/// Puts `entry` at the end of the timeline of `user`.
fn push_entry(map: &mut DashMap<i64, VecDeque<TinyPost>>, user: i64, entry: TinyPost)
    ensures
        timeline_table(*final(map)) == pushed(timeline_table(*old(map)), user, entry),
{
    let mut timeline = timeline_take(map, user);
    timeline.push_back(entry);
    let _ = table_insert(map, user, timeline);
    assert(timeline_table(*map) =~= pushed(timeline_table(*old(map)), user, entry));
}

impl PostStore {
    /// How the store was set up.
    pub closed spec fn config(&self) -> StoreConfig {
        self.config
    }

    /// An empty store.
    pub fn new(retention_seconds: u64, request_timeout_ms: u64, limits: StoreLimits) -> (store:
        PostStore)
        ensures
            store@ == empty_store(),
            store.config() == (StoreConfig { retention_seconds, request_timeout_ms, limits }),
    {
        let store = PostStore {
            posts: table_new(),
            original_posts_by_user: table_new(),
            secondary_posts_by_user: table_new(),
            video_posts_by_user: table_new(),
            deleted_posts: table_new(),
            config: StoreConfig { retention_seconds, request_timeout_ms, limits },
        };
        assert(store@ =~= empty_store());
        store
    }

    /// An empty store that keeps posts for two days and whose queries never
    /// stop early.
    pub fn with_default_retention(limits: StoreLimits) -> (store: PostStore)
        ensures
            store@ == empty_store(),
            store.config() == (StoreConfig {
                retention_seconds: 172_800,
                request_timeout_ms: 0,
                limits,
            }),
    {
        PostStore::new(2 * 24 * 60 * 60, 0, limits)
    }

    /// Withdraws the posts of `posts`: their data is dropped, and a mark keeps
    /// them from being inserted later. The deletion itself is listed under the
    /// key set aside for it, so that trimming drops the mark in due time.
    pub fn mark_as_deleted(&mut self, posts: Vec<TweetDeleteEvent>)
        ensures
            final(self)@ == marked(
                old(self)@,
                posts@,
                old(self).config().limits.delete_event_key,
            ),
            final(self).config() == old(self).config(),
    {
        let ghost before = self@;
        let key = self.config.limits.delete_event_key;
        let mut i: usize = 0;
        assert(posts@.take(0) =~= Seq::empty());
        while i < posts.len()
            invariant
                i <= posts.len(),
                key == self.config.limits.delete_event_key,
                self.config() == old(self).config(),
                self@ == marked(before, posts@.take(i as int), key),
            decreases posts.len() - i,
        {
            let event = posts[i];
            let ghost prior = self@;
            let _ = table_remove(&mut self.posts, event.post_id);
            let _ = table_insert(&mut self.deleted_posts, event.post_id, true);
            push_entry(
                &mut self.original_posts_by_user,
                key,
                TinyPost::new(event.post_id, event.deleted_at),
            );
            proof {
                assert(posts@.take(i + 1).drop_last() =~= posts@.take(i as int));
                assert(self@ =~= mark_one(prior, event, key));
            }
            i = i + 1;
        }
        assert(posts@.take(i as int) =~= posts@);
    }

    /// Inserts `posts`, already filtered and in order.
    fn insert_posts_internal(&mut self, posts: Vec<LightPost>)
        ensures
            final(self)@ == inserted(old(self)@, posts@),
            final(self).config() == old(self).config(),
    {
        let ghost before = self@;
        let mut i: usize = 0;
        assert(posts@.take(0) =~= Seq::empty());
        while i < posts.len()
            invariant
                i <= posts.len(),
                self.config() == old(self).config(),
                self@ == inserted(before, posts@.take(i as int)),
            decreases posts.len() - i,
        {
            let post = posts[i];
            proof {
                assert(posts@.take(i + 1).drop_last() =~= posts@.take(i as int));
            }
            self.insert_post(post);
            i = i + 1;
        }
        assert(posts@.take(i as int) =~= posts@);
    }

    fn insert_post(&mut self, post: LightPost)
        ensures
            final(self)@ == insert_one(old(self)@, post),
            final(self).config() == old(self).config(),
    {
        let post_id = post.post_id;
        let author_id = post.author_id;
        let is_original = !post.is_reply && !post.is_retweet;
        if mark_contains(&self.deleted_posts, post_id) {
            return ;
        }
        let previous = table_insert(&mut self.posts, post_id, post);
        if previous.is_some() {
            assert(self@ =~= insert_one(old(self)@, post));
            return ;
        }
        let entry = TinyPost::new(post_id, post.created_at);
        if is_original {
            push_entry(&mut self.original_posts_by_user, author_id, entry);
        } else {
            push_entry(&mut self.secondary_posts_by_user, author_id, entry);
        }
        let mut video_eligible = post.has_video;
        if !video_eligible && post.is_retweet {
            if let Some(source_post_id) = post.source_post_id {
                if let Some(source_post) = post_get(&self.posts, source_post_id) {
                    video_eligible = !source_post.is_reply && !source_post.is_retweet
                        && source_post.has_video;
                }
            }
        }
        if post.is_reply {
            video_eligible = false;
        }
        if video_eligible {
            push_entry(&mut self.video_posts_by_user, author_id, entry);
        }
        assert(self@ =~= insert_one(old(self)@, post));
    }
}

/// The newest entries of `timeline`, without those of `exclude`, at most
/// `max_scan`.
fn scan_timeline(timeline: &VecDeque<TinyPost>, exclude: &HashSet<i64>, max_scan: usize) -> (found:
    Vec<TinyPost>)
    ensures
        found@ == first(
            timeline@.reverse().filter(|entry: TinyPost| !exclude@.contains(entry.post_id)),
            max_scan as nat,
        ),
{
    let ghost newest = timeline@.reverse();
    let ghost wanted = |entry: TinyPost| !exclude@.contains(entry.post_id);
    let mut found: Vec<TinyPost> = Vec::new();
    let mut i: usize = 0;
    assert(newest.take(0).filter(wanted) =~= Seq::empty()) by {
        reveal(Seq::filter);
    }
    while i < timeline.len() && found.len() < max_scan
        invariant
            newest == timeline@.reverse(),
            wanted == (|entry: TinyPost| !exclude@.contains(entry.post_id)),
            i <= timeline.len(),
            found.len() <= max_scan,
            found@ == newest.take(i as int).filter(wanted),
        decreases timeline.len() - i,
    {
        let entry = timeline[timeline.len() - 1 - i];
        proof {
            assert(entry == newest[i as int]);
            lemma_filter_step(newest, i as int, wanted);
        }
        if !exclude.contains(&entry.post_id) {
            found.push(entry);
        }
        i = i + 1;
    }
    proof {
        lemma_filter_prefix(newest, i as int, wanted);
        if i == timeline.len() {
            assert(newest.take(i as int) =~= newest);
        } else if newest.filter(wanted).len() == max_scan {
            assert(newest.filter(wanted).take(max_scan as int) =~= newest.filter(wanted));
        }
        assert(first(newest.filter(wanted), max_scan as nat) == found@);
    }
    found
}

impl PostStore {
    /// Inserts those of `posts` that are not from the future and not older
    /// than the retention period, by the clock of the machine.
    pub fn insert_posts(&mut self, posts: Vec<LightPost>)
        ensures
            exists|now: u64|
                final(self)@ == inserted(
                    old(self)@,
                    #[trigger] admitted(posts@, now, old(self).config().retention_seconds),
                ),
            final(self).config() == old(self).config(),
    {
        let now = unix_seconds();
        self.insert_posts_at(posts, now);
    }

    /// Inserts those of `posts` that are not from the future and not older
    /// than the retention period at time `now`, the oldest first.
    pub fn insert_posts_at(&mut self, posts: Vec<LightPost>, now: u64)
        ensures
            final(self)@ == inserted(
                old(self)@,
                admitted(posts@, now, old(self).config().retention_seconds),
            ),
            final(self).config() == old(self).config(),
    {
        let retention = self.config.retention_seconds;
        let ghost fresh_at = |p: LightPost| is_fresh(p, now, retention);
        let ghost by_time = |p: LightPost| p.created_at as int;
        let mut fresh: Vec<LightPost> = Vec::new();
        let mut keys: Vec<i128> = Vec::new();
        let mut i: usize = 0;
        assert(posts@.take(0).filter(fresh_at) =~= Seq::empty()) by {
            reveal(Seq::filter);
        }
        while i < posts.len()
            invariant
                i <= posts.len(),
                fresh_at == (|p: LightPost| is_fresh(p, now, retention)),
                fresh@ == posts@.take(i as int).filter(fresh_at),
                keys.len() == fresh.len(),
                forall|n: int|
                    0 <= n < fresh.len() ==> keys@[n] == (#[trigger] fresh@[n]).created_at,
            decreases posts.len() - i,
        {
            let post = posts[i];
            proof {
                lemma_filter_step(posts@, i as int, fresh_at);
            }
            let age: i128 = now as i128 - post.created_at as i128;
            if age > 0 && age <= retention as i128 {
                fresh.push(post);
                keys.push(post.created_at as i128);
            }
            i = i + 1;
        }
        assert(posts@.take(i as int) =~= posts@);
        let sorted = sort_copies(&fresh, &keys);
        proof {
            lemma_order_sorts(fresh@, keys@, by_time);
        }
        self.insert_posts_internal(sorted);
    }

    /// Whether the entry's post may be handed out, and the post.
    fn serve(&self, entry: &TinyPost, following: &HashSet<i64>, requester: i64) -> (post: Option<
        LightPost,
    >)
        ensures
            forall|query: Query|
                query.following == following@ && query.requester == requester ==> post == (
                if #[trigger] is_served(self@, *entry, query) {
                    Some(self@.posts[entry.post_id])
                } else {
                    None
                }),
    {
        let post = match post_get(&self.posts, entry.post_id) {
            Some(post) => post,
            None => return None,
        };
        if mark_contains(&self.deleted_posts, post.post_id) {
            return None;
        }
        if post.is_retweet {
            if let Some(source_user) = post.source_user_id {
                if source_user == requester {
                    return None;
                }
            }
        }
        if following.is_empty() || self.shows_reply(&post, following) {
            Some(post)
        } else {
            None
        }
    }

    fn shows_reply(&self, post: &LightPost, following: &HashSet<i64>) -> (shown: bool)
        ensures
            shown == is_reply_shown(self@.posts, *post, following@),
    {
        let parent_id = match post.in_reply_to_post_id {
            None => return true,
            Some(parent_id) => parent_id,
        };
        let parent = match post_get(&self.posts, parent_id) {
            None => return false,
            Some(parent) => parent,
        };
        if !parent.is_retweet && !parent.is_reply {
            return true;
        }
        match (post.conversation_id, parent.in_reply_to_post_id, post.in_reply_to_user_id) {
            (Some(conversation), Some(answered), Some(user)) => answered == conversation
                && following.contains(&user),
            _ => false,
        }
    }

    /// The posts that one user's timeline in `posts_map` yields: the newest
    /// first, at most `max_per_user`, without those of `exclude_tweet_ids`,
    /// withdrawn posts, retweets of the reader's own posts, and, where
    /// `following_users` is not empty, replies outside of the conversations
    /// that the reader follows.
    fn posts_of_user(
        &self,
        posts_map: &DashMap<i64, VecDeque<TinyPost>>,
        user_id: i64,
        max_per_user: usize,
        exclude_tweet_ids: &HashSet<i64>,
        following_users: &HashSet<i64>,
        request_user_id: i64,
    ) -> (read: TimelineRead)
        ensures
            read.posts@ == served(
                self@,
                timeline_of(timeline_table(*posts_map), user_id),
                self.query(
                    max_per_user,
                    exclude_tweet_ids@,
                    following_users@,
                    request_user_id,
                ),
            ),
            read.listed == timeline_of(timeline_table(*posts_map), user_id).len(),
    {
        let ghost query = self.query(
            max_per_user,
            exclude_tweet_ids@,
            following_users@,
            request_user_id,
        );
        let ghost timeline = timeline_of(timeline_table(*posts_map), user_id);
        let entries = match timeline_get(posts_map, user_id) {
            Some(entries) => entries,
            None => VecDeque::new(),
        };
        let listed = entries.len();
        let window = scan_timeline(
            &entries,
            exclude_tweet_ids,
            self.config.limits.max_tiny_posts_per_user_scan,
        );
        let ghost passes = |entry: TinyPost| is_served(self@, entry, query);
        let ghost data = |entry: TinyPost| self@.posts[entry.post_id];
        assert(window@ == scanned(timeline, query));
        let mut found: Vec<LightPost> = Vec::new();
        let mut i: usize = 0;
        assert(window@.take(0).filter(passes).map_values(data) =~= Seq::empty()) by {
            reveal(Seq::filter);
        }
        while i < window.len() && found.len() < max_per_user
            invariant
                query.following == following_users@,
                query.requester == request_user_id,
                passes == (|entry: TinyPost| is_served(self@, entry, query)),
                data == (|entry: TinyPost| self@.posts[entry.post_id]),
                i <= window.len(),
                found.len() <= max_per_user,
                found@ == window@.take(i as int).filter(passes).map_values(data),
            decreases window.len() - i,
        {
            let entry = window[i];
            let ghost kept = window@.take(i as int).filter(passes);
            proof {
                lemma_filter_step(window@, i as int, passes);
                assert(kept.push(entry).map_values(data) =~= kept.map_values(data).push(
                    data(entry),
                ));
                assert(passes(entry) == is_served(self@, entry, query));
            }
            if let Some(post) = self.serve(&entry, following_users, request_user_id) {
                found.push(post);
            }
            i = i + 1;
        }
        proof {
            lemma_filter_prefix(window@, i as int, passes);
            let all = window@.filter(passes);
            let seen = window@.take(i as int).filter(passes);
            if i == window.len() {
                assert(window@.take(i as int) =~= window@);
            } else if all.len() == max_per_user {
                assert(all.take(max_per_user as int) =~= all);
            }
            assert(first(all, max_per_user as nat) == seen);
        }
        TimelineRead { posts: found, listed }
    }

    /// Whether a query that began `elapsed_ms` milliseconds ago is to stop; where the
    /// store has no timeout it never is.
    pub open spec fn must_stop(&self, elapsed_ms: u128) -> bool {
        self.config().request_timeout_ms != 0 && elapsed_ms >= self.config().request_timeout_ms
    }

    /// Whether a query that began `elapsed_ms` milliseconds ago is to stop.
    pub fn is_out_of_time(&self, elapsed_ms: u128) -> (stops: bool)
        ensures
            stops == self.must_stop(elapsed_ms),
    {
        self.config.request_timeout_ms != 0 && elapsed_ms >= self.config.request_timeout_ms as u128
    }

    /// One step of a query that began `elapsed_ms` milliseconds ago: nothing where
    /// it is to stop, or else the posts that the timeline of `user_id` in
    /// `posts_map` yields.
    ///
    /// Nobody may change `posts_map` during the call: what is said here is said of
    /// the one content that it has meanwhile.
    pub fn read_next(
        &self,
        posts_map: &DashMap<i64, VecDeque<TinyPost>>,
        user_id: i64,
        max_per_user: usize,
        exclude_tweet_ids: &HashSet<i64>,
        following_users: &HashSet<i64>,
        elapsed_ms: u128,
        request_user_id: i64,
    ) -> (next: Option<TimelineRead>)
        ensures
            next is None <==> self.must_stop(elapsed_ms),
            next matches Some(read) ==> read.posts@ == served(
                self@,
                timeline_of(timeline_table(*posts_map), user_id),
                self.query(
                    max_per_user,
                    exclude_tweet_ids@,
                    following_users@,
                    request_user_id,
                ),
            ) && read.listed == timeline_of(timeline_table(*posts_map), user_id).len(),
    {
        if self.is_out_of_time(elapsed_ms) {
            None
        } else {
            Some(
                self.posts_of_user(
                    posts_map,
                    user_id,
                    max_per_user,
                    exclude_tweet_ids,
                    following_users,
                    request_user_id,
                ),
            )
        }
    }

    /// The posts that the timelines of `user_ids` in `posts_map` yield, one
    /// user after the other, each as `read_next` says. Where the store has a
    /// timeout and the query has taken longer, the users not yet reached are
    /// left out.
    ///
    /// Nobody may change `posts_map` during the call: what is said here is said of
    /// the one content that it has meanwhile.
    pub fn read_posts_from_map(
        &self,
        posts_map: &DashMap<i64, VecDeque<TinyPost>>,
        user_ids: &[i64],
        max_per_user: usize,
        exclude_tweet_ids: &HashSet<i64>,
        following_users: &HashSet<i64>,
        start_time: Instant,
        request_user_id: i64,
    ) -> (read: UsersRead)
        ensures
            self.is_read(
                read,
                timeline_table(*posts_map),
                user_ids@,
                self.query(
                    max_per_user,
                    exclude_tweet_ids@,
                    following_users@,
                    request_user_id,
                ),
            ),
    {
        let ghost query = self.query(
            max_per_user,
            exclude_tweet_ids@,
            following_users@,
            request_user_id,
        );
        let ghost table = timeline_table(*posts_map);
        let mut posts: Vec<LightPost> = Vec::new();
        let mut listed: usize = 0;
        let mut i: usize = 0;
        let mut in_time = true;
        assert(user_ids@.take(0) =~= Seq::empty());
        while i < user_ids.len() && in_time
            invariant
                i <= user_ids.len(),
                self.config().request_timeout_ms == 0 ==> in_time,
                table == timeline_table(*posts_map),
                query == self.query(
                    max_per_user,
                    exclude_tweet_ids@,
                    following_users@,
                    request_user_id,
                ),
                posts@ == served_all(self@, table, user_ids@.take(i as int), query),
                listed == saturated(listed_by(table, user_ids@.take(i as int))),
            decreases user_ids.len() - i, (if in_time { 1int } else { 0int }),
        {
            let next = self.read_next(
                posts_map,
                user_ids[i],
                max_per_user,
                exclude_tweet_ids,
                following_users,
                elapsed_millis(&start_time),
                request_user_id,
            );
            match next {
                None => {
                    in_time = false;
                },
                Some(read) => {
                    let mut read = read;
                    posts.append(&mut read.posts);
                    listed = listed.saturating_add(read.listed);
                    assert(user_ids@.take(i + 1).drop_last() =~= user_ids@.take(i as int));
                    i = i + 1;
                },
            }
        }
        UsersRead { posts, reached: i, listed }
    }

    /// The posts of `read_posts_from_map`.
    ///
    /// Nobody may change `posts_map` during the call: what is said here is said of
    /// the one content that it has meanwhile.
    pub fn get_posts_from_map(
        &self,
        posts_map: &DashMap<i64, VecDeque<TinyPost>>,
        user_ids: &[i64],
        max_per_user: usize,
        exclude_tweet_ids: &HashSet<i64>,
        following_users: &HashSet<i64>,
        start_time: Instant,
        request_user_id: i64,
    ) -> (found: Vec<LightPost>)
        ensures
            is_answer(
                found@,
                self@,
                timeline_table(*posts_map),
                user_ids@,
                self.query(
                    max_per_user,
                    exclude_tweet_ids@,
                    following_users@,
                    request_user_id,
                ),
                self.config().request_timeout_ms != 0,
            ),
    {
        let read = self.read_posts_from_map(
            posts_map,
            user_ids,
            max_per_user,
            exclude_tweet_ids,
            following_users,
            start_time,
            request_user_id,
        );
        proof {
            self.lemma_read_is_answer(
                read,
                timeline_table(*posts_map),
                user_ids@,
                self.query(
                    max_per_user,
                    exclude_tweet_ids@,
                    following_users@,
                    request_user_id,
                ),
            );
        }
        read.posts
    }

    proof fn lemma_read_is_answer(
        &self,
        read: UsersRead,
        table: Map<i64, Seq<TinyPost>>,
        users: Seq<i64>,
        query: Query,
    )
        requires
            self.is_read(read, table, users, query),
        ensures
            is_answer(
                read.posts@,
                self@,
                table,
                users,
                query,
                self.config().request_timeout_ms != 0,
            ),
    {
        let reached = read.reached as int;
        assert(read.posts@ == served_all(self@, table, users.take(reached), query));
    }

    /// What a query asks of each timeline.
    pub open spec fn query(
        &self,
        max_per_user: usize,
        exclude: Set<i64>,
        following: Set<i64>,
        requester: i64,
    ) -> Query {
        Query {
            exclude,
            following,
            requester,
            max_scan: self.config().limits.max_tiny_posts_per_user_scan as nat,
            max_per_user: max_per_user as nat,
        }
    }

    /// `read` is what the timelines of the users that were reached yield. A store
    /// without a timeout reaches all of them.
    pub open spec fn is_read(
        &self,
        read: UsersRead,
        table: Map<i64, Seq<TinyPost>>,
        users: Seq<i64>,
        query: Query,
    ) -> bool {
        &&& read.reached <= users.len()
        &&& self.config().request_timeout_ms == 0 ==> read.reached == users.len()
        &&& read.posts@ == served_all(self@, table, users.take(read.reached as int), query)
        &&& read.listed == saturated(listed_by(table, users.take(read.reached as int)))
    }

    /// The video posts of `user_ids`. Replies are no criterion here.
    pub fn read_videos_by_users(
        &self,
        user_ids: &[i64],
        exclude_tweet_ids: &HashSet<i64>,
        start_time: Instant,
        request_user_id: i64,
    ) -> (read: UsersRead)
        ensures
            self.is_read(
                read,
                self@.video,
                user_ids@,
                self.query(
                    self.config().limits.max_video_posts_per_author,
                    exclude_tweet_ids@,
                    Set::empty(),
                    request_user_id,
                ),
            ),
    {
        let nobody: HashSet<i64> = HashSet::new();
        self.read_posts_from_map(
            &self.video_posts_by_user,
            user_ids,
            self.config.limits.max_video_posts_per_author,
            exclude_tweet_ids,
            &nobody,
            start_time,
            request_user_id,
        )
    }

    /// The posts of `read_videos_by_users`.
    pub fn get_videos_by_users(
        &self,
        user_ids: &[i64],
        exclude_tweet_ids: &HashSet<i64>,
        start_time: Instant,
        request_user_id: i64,
    ) -> (found: Vec<LightPost>)
        ensures
            is_answer(
                found@,
                self@,
                self@.video,
                user_ids@,
                self.query(
                    self.config().limits.max_video_posts_per_author,
                    exclude_tweet_ids@,
                    Set::empty(),
                    request_user_id,
                ),
                self.config().request_timeout_ms != 0,
            ),
    {
        let read = self.read_videos_by_users(
            user_ids,
            exclude_tweet_ids,
            start_time,
            request_user_id,
        );
        proof {
            self.lemma_read_is_answer(
                read,
                self@.video,
                user_ids@,
                self.query(
                    self.config().limits.max_video_posts_per_author,
                    exclude_tweet_ids@,
                    Set::empty(),
                    request_user_id,
                ),
            );
        }
        read.posts
    }

    /// The original posts of `user_ids`, and their replies and retweets as far as
    /// they belong to conversations among `user_ids`.
    pub fn read_all_posts_by_users(
        &self,
        user_ids: &[i64],
        exclude_tweet_ids: &HashSet<i64>,
        start_time: Instant,
        request_user_id: i64,
    ) -> (read: (UsersRead, UsersRead))
        ensures
            self.is_read(
                read.0,
                self@.original,
                user_ids@,
                self.query(
                    self.config().limits.max_original_posts_per_author,
                    exclude_tweet_ids@,
                    Set::empty(),
                    request_user_id,
                ),
            ),
            self.is_read(
                read.1,
                self@.secondary,
                user_ids@,
                self.query(
                    self.config().limits.max_reply_posts_per_author,
                    exclude_tweet_ids@,
                    user_ids@.to_set(),
                    request_user_id,
                ),
            ),
    {
        let following_users = set_of(user_ids);
        let nobody: HashSet<i64> = HashSet::new();
        let original = self.read_posts_from_map(
            &self.original_posts_by_user,
            user_ids,
            self.config.limits.max_original_posts_per_author,
            exclude_tweet_ids,
            &nobody,
            start_time,
            request_user_id,
        );
        let secondary = self.read_posts_from_map(
            &self.secondary_posts_by_user,
            user_ids,
            self.config.limits.max_reply_posts_per_author,
            exclude_tweet_ids,
            &following_users,
            start_time,
            request_user_id,
        );
        (original, secondary)
    }

    /// The posts of both parts of `read_all_posts_by_users`, the original ones
    /// first.
    pub fn get_all_posts_by_users(
        &self,
        user_ids: &[i64],
        exclude_tweet_ids: &HashSet<i64>,
        start_time: Instant,
        request_user_id: i64,
    ) -> (found: Vec<LightPost>)
        ensures
            exists|original: Seq<LightPost>, secondary: Seq<LightPost>|
                found@ == #[trigger] (original + secondary) && is_answer(
                    original,
                    self@,
                    self@.original,
                    user_ids@,
                    self.query(
                        self.config().limits.max_original_posts_per_author,
                        exclude_tweet_ids@,
                        Set::empty(),
                        request_user_id,
                    ),
                    self.config().request_timeout_ms != 0,
                ) && is_answer(
                    secondary,
                    self@,
                    self@.secondary,
                    user_ids@,
                    self.query(
                        self.config().limits.max_reply_posts_per_author,
                        exclude_tweet_ids@,
                        user_ids@.to_set(),
                        request_user_id,
                    ),
                    self.config().request_timeout_ms != 0,
                ),
    {
        let (original, secondary) = self.read_all_posts_by_users(
            user_ids,
            exclude_tweet_ids,
            start_time,
            request_user_id,
        );
        proof {
            self.lemma_read_is_answer(
                original,
                self@.original,
                user_ids@,
                self.query(
                    self.config().limits.max_original_posts_per_author,
                    exclude_tweet_ids@,
                    Set::empty(),
                    request_user_id,
                ),
            );
            self.lemma_read_is_answer(
                secondary,
                self@.secondary,
                user_ids@,
                self.query(
                    self.config().limits.max_reply_posts_per_author,
                    exclude_tweet_ids@,
                    user_ids@.to_set(),
                    request_user_id,
                ),
            );
        }
        let ghost (first_part, second_part) = (original.posts@, secondary.posts@);
        let mut found = original.posts;
        let mut rest = secondary.posts;
        found.append(&mut rest);
        assert(found@ == first_part + second_part);
        found
    }
}

/// The ids as a set.
fn set_of(ids: &[i64]) -> (set: HashSet<i64>)
    ensures
        set@ == ids@.to_set(),
{
    let mut set: HashSet<i64> = HashSet::new();
    let mut i: usize = 0;
    while i < ids.len()
        invariant
            i <= ids.len(),
            set@ == ids@.take(i as int).to_set(),
        decreases ids.len() - i,
    {
        set.insert(ids[i]);
        proof {
            lemma_one_more(ids@, i as int);
        }
        i = i + 1;
    }
    assert(ids@.take(i as int) =~= ids@);
    set
}

/// `VecDeque::capacity`. Nothing is stated of the result: it is whatever the
/// allocator gave.
#[verifier::external_body]
fn timeline_capacity(timeline: &VecDeque<TinyPost>) -> (capacity: usize) {
    timeline.capacity()
}

/// `VecDeque::shrink_to`: the entries stay what they are.
#[verifier::external_body]
fn timeline_shrink(timeline: &mut VecDeque<TinyPost>, capacity: usize)
    ensures
        final(timeline)@ == old(timeline)@,
{
    timeline.shrink_to(capacity)
}

/// The room that a timeline of `length` entries is cut down to where it has room
/// for more than twice as many: that for half as many again, rounded down. Where
/// it has less room it is left as it is.
pub open spec fn wanted_capacity(length: int, capacity: int) -> Option<int> {
    if capacity > length * 2 {
        Some(length + length / 2)
    } else {
        None
    }
}

/// The room that a timeline of `length` entries with room for `capacity` is cut
/// down to; `None` where it is left as it is.
pub fn compacted_capacity(length: usize, capacity: usize) -> (target: Option<usize>)
    ensures
        (match target {
            Some(target) => wanted_capacity(length as int, capacity as int) == Some(target as int),
            None => wanted_capacity(length as int, capacity as int) is None,
        }),
{
    if length <= usize::MAX / 2 && capacity > length * 2 {
        Some(length + length / 2)
    } else {
        None
    }
}

/// Gives memory back as `compacted_capacity` says of the room that the timeline
/// has. Only the entries are spoken of: how much room there is before and after
/// is left to the allocator.
fn compact(timeline: &mut VecDeque<TinyPost>)
    ensures
        final(timeline)@ == old(timeline)@,
{
    if let Some(target) = compacted_capacity(timeline.len(), timeline_capacity(timeline)) {
        timeline_shrink(timeline, target);
    }
}

/// Takes the expired entries off the front of a timeline, and their posts out
/// of `posts`; where the timeline lists deletions, their marks too.
fn trim_timeline(
    timeline: &mut VecDeque<TinyPost>,
    posts: &mut DashMap<i64, LightPost>,
    deleted: &mut DashMap<i64, bool>,
    lists_deletions: bool,
    now: u64,
    retention: u64,
) -> (count: usize)
    ensures
        count == expired_count(old(timeline)@, now, retention),
        final(timeline)@ == kept_back(old(timeline)@, now, retention),
        post_table(*final(posts)) == post_table(*old(posts)).remove_keys(
            ids_of(expired_front(old(timeline)@, now, retention)),
        ),
        mark_table(*final(deleted)).dom() == if lists_deletions {
            mark_table(*old(deleted)).dom().difference(
                ids_of(expired_front(old(timeline)@, now, retention)),
            )
        } else {
            mark_table(*old(deleted)).dom()
        },
{
    let ghost whole = timeline@;
    let length = timeline.len();
    let mut count: usize = 0;
    assert(whole.skip(0) =~= whole);
    assert(post_table(*posts).remove_keys(ids_of(whole.take(0))) =~= post_table(*posts));
    assert(mark_table(*deleted).dom().difference(ids_of(whole.take(0))) =~= mark_table(
        *deleted,
    ).dom());
    let mut trimming = true;
    while trimming && timeline.len() > 0
        invariant
            whole == old(timeline)@,
            count <= whole.len(),
            whole.len() == length,
            timeline@ == whole.skip(count as int),
            expired_count(whole, now, retention) == count + if trimming {
                expired_count(timeline@, now, retention)
            } else {
                0
            },
            post_table(*posts) == post_table(*old(posts)).remove_keys(
                ids_of(whole.take(count as int)),
            ),
            mark_table(*deleted).dom() == if lists_deletions {
                mark_table(*old(deleted)).dom().difference(ids_of(whole.take(count as int)))
            } else {
                mark_table(*old(deleted)).dom()
            },
        decreases timeline.len(), (if trimming { 1int } else { 0int }),
    {
        let oldest = timeline[0];
        if now as i128 - oldest.created_at as i128 > retention as i128 {
            let ghost ids = ids_of(whole.take(count as int));
            let ghost more = ids_of(whole.take(count + 1));
            proof {
                assert(oldest == whole[count as int]);
                assert(whole.take(count + 1) =~= whole.take(count as int).push(oldest));
                assert(more =~= ids.insert(oldest.post_id)) by {
                    assert forall|id: i64| more.contains(id) <==> ids.insert(
                        oldest.post_id,
                    ).contains(id) by {
                        if ids.contains(id) {
                            let i = choose|i: int|
                                0 <= i < count && (#[trigger] whole.take(
                                    count as int,
                                )[i]).post_id == id;
                            assert(whole.take(count + 1)[i].post_id == id);
                        }
                        if id == oldest.post_id {
                            assert(whole.take(count + 1)[count as int].post_id == id);
                        }
                        if more.contains(id) {
                            let i = choose|i: int|
                                0 <= i < count + 1 && (#[trigger] whole.take(
                                    count + 1,
                                )[i]).post_id == id;
                            if i < count {
                                assert(whole.take(count as int)[i].post_id == id);
                            }
                        }
                    }
                }
            }
            let _ = timeline.pop_front();
            let _ = table_remove(posts, oldest.post_id);
            if lists_deletions {
                let _ = table_remove(deleted, oldest.post_id);
            }
            proof {
                assert(whole.skip(count as int).drop_first() =~= whole.skip(count + 1));
                assert(timeline@ =~= whole.skip(count + 1));
                assert(post_table(*posts) =~= post_table(*old(posts)).remove_keys(more));
                if lists_deletions {
                    assert(mark_table(*deleted).dom() =~= mark_table(
                        *old(deleted),
                    ).dom().difference(more));
                }
            }
            count = count + 1;
        } else {
            trimming = false;
        }
    }
    count
}

/// The smaller of the total and the largest number that a `usize` holds.
pub open spec fn saturated(total: nat) -> usize {
    if total <= usize::MAX {
        total as usize
    } else {
        usize::MAX
    }
}

/// Trims every timeline of `map`, and drops the timelines that are empty then.
fn trim_timelines(
    map: &mut DashMap<i64, VecDeque<TinyPost>>,
    posts: &mut DashMap<i64, LightPost>,
    deleted: &mut DashMap<i64, bool>,
    delete_event_key: i64,
    now: u64,
    retention: u64,
) -> (count: usize)
    ensures
        timeline_table(*final(map)) == trimmed_table(timeline_table(*old(map)), now, retention),
        (post_table(*final(posts)), mark_table(*final(deleted)).dom()) == trim_one(
            post_table(*old(posts)),
            mark_table(*old(deleted)).dom(),
            timeline_table(*old(map)),
            delete_event_key,
            now,
            retention,
        ),
        count == saturated(trimmed_entries(timeline_table(*old(map)), now, retention)),
{
    let ghost table = timeline_table(*map);
    let ghost share = |user: i64| expired_count(timeline_of(table, user), now, retention);
    let ghost marks = ids_of(expired_front(timeline_of(table, delete_event_key), now, retention));
    let users = table_keys(map);
    let mut count: usize = 0;
    let mut i: usize = 0;
    proof {
        users@.lemma_cardinality_of_set();
        assert(users@.take(0).to_set() =~= Set::empty());
        assert(expired_ids(table, Set::empty(), now, retention) =~= Set::empty());
        assert(post_table(*posts).remove_keys(Set::empty()) =~= post_table(*posts));
    }
    while i < users.len()
        invariant
            i <= users.len(),
            table == timeline_table(*old(map)),
            users@.no_duplicates(),
            users@.to_set() == table.dom(),
            share == (|user: i64| expired_count(timeline_of(table, user), now, retention)),
            marks == ids_of(
                expired_front(timeline_of(table, delete_event_key), now, retention),
            ),
            users@.take(i as int).to_set().finite(),
            count == saturated(sum_over(users@.take(i as int).to_set(), share)),
            forall|user: i64|
                users@.take(i as int).contains(user) ==> (#[trigger] timeline_table(
                    *map,
                ).contains_key(user) <==> kept_back(table[user], now, retention).len() > 0),
            forall|user: i64|
                users@.take(i as int).contains(user) && #[trigger] timeline_table(
                    *map,
                ).contains_key(user) ==> timeline_table(*map)[user] == kept_back(
                    table[user],
                    now,
                    retention,
                ),
            forall|user: i64|
                !users@.take(i as int).contains(user) ==> (#[trigger] timeline_table(
                    *map,
                ).contains_key(user) <==> table.contains_key(user)),
            forall|user: i64|
                !users@.take(i as int).contains(user) && #[trigger] timeline_table(
                    *map,
                ).contains_key(user) ==> timeline_table(*map)[user] == table[user],
            post_table(*posts) == post_table(*old(posts)).remove_keys(
                expired_ids(table, users@.take(i as int).to_set(), now, retention),
            ),
            mark_table(*deleted).dom() == if users@.take(i as int).contains(delete_event_key) {
                mark_table(*old(deleted)).dom().difference(marks)
            } else {
                mark_table(*old(deleted)).dom()
            },
        decreases users.len() - i,
    {
        let user = users[i];
        let ghost seen = users@.take(i as int);
        let ghost more = users@.take(i + 1);
        let ghost map_before = timeline_table(*map);
        proof {
            lemma_next_is_new(users@, i as int);
            lemma_one_more(users@, i as int);
            lemma_sum_insert(seen.to_set(), user, share);
        }
        let mut timeline = timeline_take(map, user);
        let ghost whole = timeline@;
        let gone = trim_timeline(
            &mut timeline,
            posts,
            deleted,
            user == delete_event_key,
            now,
            retention,
        );
        compact(&mut timeline);
        let _ = table_insert(map, user, timeline);
        timeline_remove_if_empty(map, user);
        count = if gone <= usize::MAX - count {
            count + gone
        } else {
            usize::MAX
        };
        proof {
            assert(whole == timeline_of(table, user));
            let before = expired_ids(table, seen.to_set(), now, retention);
            let after = expired_ids(table, more.to_set(), now, retention);
            let front = ids_of(expired_front(whole, now, retention));
            assert(after =~= before.union(front)) by {
                assert forall|id: i64| after.contains(id) <==> before.union(front).contains(id) by {
                    if before.contains(id) {
                        let u = choose|u: i64| #[trigger]
                            seen.to_set().contains(u) && ids_of(
                                expired_front(timeline_of(table, u), now, retention),
                            ).contains(id);
                        assert(more.to_set().contains(u));
                    }
                    if front.contains(id) {
                        assert(more.to_set().contains(user));
                    }
                    if after.contains(id) {
                        let u = choose|u: i64| #[trigger]
                            more.to_set().contains(u) && ids_of(
                                expired_front(timeline_of(table, u), now, retention),
                            ).contains(id);
                        if u != user {
                            assert(seen.to_set().contains(u));
                        }
                    }
                }
            }
            assert(post_table(*posts) =~= post_table(*old(posts)).remove_keys(after));
        }
        i = i + 1;
    }
    proof {
        assert(users@.take(i as int) =~= users@);
        assert(forall|user: i64| users@.contains(user) <==> table.contains_key(user)) by {
            assert forall|user: i64| users@.contains(user) <==> table.contains_key(user) by {
                assert(users@.to_set().contains(user) <==> table.dom().contains(user));
            }
        }
        assert(timeline_table(*map) =~= trimmed_table(table, now, retention));
        if !table.contains_key(delete_event_key) {
            assert(marks =~= Set::empty());
            assert(mark_table(*old(deleted)).dom().difference(marks) =~= mark_table(
                *old(deleted),
            ).dom());
        }
    }
    count
}

/// A timeline in ascending order of creation.
fn sort_timeline(timeline: VecDeque<TinyPost>) -> (sorted: VecDeque<TinyPost>)
    ensures
        sorted@ == sorted_timeline(timeline@),
{
    let ghost by_time = |entry: TinyPost| entry.created_at as int;
    let mut entries: Vec<TinyPost> = Vec::new();
    let mut keys: Vec<i128> = Vec::new();
    let mut i: usize = 0;
    while i < timeline.len()
        invariant
            i <= timeline.len(),
            entries@ == timeline@.take(i as int),
            keys.len() == i,
            forall|n: int| 0 <= n < i ==> keys@[n] == (#[trigger] timeline@[n]).created_at,
        decreases timeline.len() - i,
    {
        let entry = timeline[i];
        assert(timeline@.take(i + 1) =~= timeline@.take(i as int).push(entry));
        entries.push(entry);
        keys.push(entry.created_at as i128);
        i = i + 1;
    }
    assert(entries@ =~= timeline@);
    let ordered = sort_copies(&entries, &keys);
    proof {
        lemma_order_sorts(entries@, keys@, by_time);
    }
    let mut sorted: VecDeque<TinyPost> = VecDeque::new();
    let mut j: usize = 0;
    while j < ordered.len()
        invariant
            j <= ordered.len(),
            sorted@ == ordered@.take(j as int),
        decreases ordered.len() - j,
    {
        assert(ordered@.take(j + 1) =~= ordered@.take(j as int).push(ordered@[j as int]));
        sorted.push_back(ordered[j]);
        j = j + 1;
    }
    assert(sorted@ =~= ordered@);
    sorted
}

/// Puts every timeline of `map` in ascending order of creation.
fn sort_timelines(map: &mut DashMap<i64, VecDeque<TinyPost>>)
    ensures
        timeline_table(*final(map)) == sorted_table(timeline_table(*old(map))),
{
    let ghost table = timeline_table(*map);
    let users = table_keys(map);
    let mut i: usize = 0;
    while i < users.len()
        invariant
            i <= users.len(),
            table == timeline_table(*old(map)),
            users@.no_duplicates(),
            users@.to_set() == table.dom(),
            timeline_table(*map).dom() == table.dom(),
            forall|user: i64|
                table.contains_key(user) ==> #[trigger] timeline_table(*map)[user]
                    == if users@.take(i as int).contains(user) {
                    sorted_timeline(table[user])
                } else {
                    table[user]
                },
        decreases users.len() - i,
    {
        let user = users[i];
        let ghost seen = users@.take(i as int);
        proof {
            lemma_next_is_new(users@, i as int);
            lemma_one_more(users@, i as int);
        }
        let timeline = timeline_take(map, user);
        let sorted = sort_timeline(timeline);
        let _ = table_insert(map, user, sorted);
        assert(timeline_table(*map).dom() =~= table.dom());
        i = i + 1;
    }
    proof {
        assert(users@.take(i as int) =~= users@);
        assert forall|user: i64| table.contains_key(user) implies users@.contains(user) by {
            assert(users@.to_set().contains(user));
        }
        assert(timeline_table(*map) =~= sorted_table(table));
    }
}

/// How many entries the timelines of `map` list.
fn count_entries(map: &DashMap<i64, VecDeque<TinyPost>>) -> (count: usize)
    ensures
        count == saturated(listed_entries(timeline_table(*map))),
{
    let ghost table = timeline_table(*map);
    let ghost share = |user: i64| timeline_of(table, user).len();
    let users = table_keys(map);
    let mut count: usize = 0;
    let mut i: usize = 0;
    proof {
        users@.lemma_cardinality_of_set();
        assert(users@.take(0).to_set() =~= Set::empty());
    }
    while i < users.len()
        invariant
            i <= users.len(),
            table == timeline_table(*map),
            share == (|user: i64| timeline_of(table, user).len()),
            users@.no_duplicates(),
            users@.take(i as int).to_set().finite(),
            count == saturated(sum_over(users@.take(i as int).to_set(), share)),
        decreases users.len() - i,
    {
        let user = users[i];
        let ghost seen = users@.take(i as int);
        proof {
            lemma_next_is_new(users@, i as int);
            lemma_one_more(users@, i as int);
            lemma_sum_insert(seen.to_set(), user, share);
        }
        let length: usize = match timeline_get(map, user) {
            Some(timeline) => timeline.len(),
            None => 0,
        };
        count = if length <= usize::MAX - count {
            count + length
        } else {
            usize::MAX
        };
        i = i + 1;
    }
    assert(users@.take(i as int) =~= users@);
    count
}

/// How much a store holds. Counts of timeline entries stop at the largest
/// number that a `usize` holds.
#[derive(Clone, Copy, Debug, PartialEq, Eq, Structural)]
pub struct StoreStats {
    pub user_count: usize,
    pub total_posts: usize,
    pub deleted_posts: usize,
    pub original_posts_count: usize,
    pub secondary_posts_count: usize,
    pub video_posts_count: usize,
}

impl PostStore {
    /// Drops the expired front of every timeline, by the clock of the machine,
    /// and tells how many entries went from the timelines of original and of
    /// secondary posts.
    pub fn trim_old_posts(&mut self) -> (count: usize)
        ensures
            exists|now: u64|
                final(self)@ == #[trigger] trimmed(
                    old(self)@,
                    old(self).config().limits.delete_event_key,
                    now,
                    old(self).config().retention_seconds,
                ) && count == saturated(
                    trimmed_entries(
                        old(self)@.original,
                        now,
                        old(self).config().retention_seconds,
                    ) + trimmed_entries(
                        old(self)@.secondary,
                        now,
                        old(self).config().retention_seconds,
                    ),
                ),
            final(self).config() == old(self).config(),
    {
        let now = unix_seconds();
        self.trim_old_posts_at(now)
    }

    /// Drops the expired front of every timeline at time `now`: the entries
    /// created more than the retention period before. Their posts are dropped
    /// with them, and so are the marks of the deletions among them. Tells how
    /// many entries went from the timelines of original and of secondary posts.
    pub fn trim_old_posts_at(&mut self, now: u64) -> (count: usize)
        ensures
            final(self)@ == trimmed(
                old(self)@,
                old(self).config().limits.delete_event_key,
                now,
                old(self).config().retention_seconds,
            ),
            count == saturated(
                trimmed_entries(old(self)@.original, now, old(self).config().retention_seconds)
                    + trimmed_entries(
                    old(self)@.secondary,
                    now,
                    old(self).config().retention_seconds,
                ),
            ),
            final(self).config() == old(self).config(),
    {
        let key = self.config.limits.delete_event_key;
        let retention = self.config.retention_seconds;
        let original = trim_timelines(
            &mut self.original_posts_by_user,
            &mut self.posts,
            &mut self.deleted_posts,
            key,
            now,
            retention,
        );
        let secondary = trim_timelines(
            &mut self.secondary_posts_by_user,
            &mut self.posts,
            &mut self.deleted_posts,
            key,
            now,
            retention,
        );
        let _ = trim_timelines(
            &mut self.video_posts_by_user,
            &mut self.posts,
            &mut self.deleted_posts,
            key,
            now,
            retention,
        );
        assert(self@ =~= trimmed(old(self)@, key, now, retention));
        if secondary <= usize::MAX - original {
            original + secondary
        } else {
            usize::MAX
        }
    }

    /// Puts every timeline in ascending order of creation.
    pub fn sort_all_user_posts(&mut self)
        ensures
            final(self)@ == sorted_store(old(self)@),
            final(self).config() == old(self).config(),
    {
        sort_timelines(&mut self.original_posts_by_user);
        sort_timelines(&mut self.secondary_posts_by_user);
        sort_timelines(&mut self.video_posts_by_user);
        assert(self@ =~= sorted_store(old(self)@));
    }

    /// Ends the initial load, by the clock of the machine: sorts the timelines,
    /// trims old posts, and drops every post that is marked as withdrawn.
    pub fn finalize_init(&mut self)
        ensures
            exists|now: u64|
                final(self)@ == #[trigger] finalized(
                    old(self)@,
                    old(self).config().limits.delete_event_key,
                    now,
                    old(self).config().retention_seconds,
                ),
            final(self).config() == old(self).config(),
    {
        let now = unix_seconds();
        self.finalize_init_at(now);
    }

    /// Ends the initial load at time `now`.
    pub fn finalize_init_at(&mut self, now: u64)
        ensures
            final(self)@ == finalized(
                old(self)@,
                old(self).config().limits.delete_event_key,
                now,
                old(self).config().retention_seconds,
            ),
            final(self).config() == old(self).config(),
    {
        self.sort_all_user_posts();
        let _ = self.trim_old_posts_at(now);
        let ghost after = self@;
        let marked_ids = table_keys(&self.deleted_posts);
        let mut i: usize = 0;
        assert(after.posts.remove_keys(marked_ids@.take(0).to_set()) =~= after.posts);
        while i < marked_ids.len()
            invariant
                i <= marked_ids.len(),
                self.config() == old(self).config(),
                self@ == (StoreState {
                    posts: after.posts.remove_keys(marked_ids@.take(i as int).to_set()),
                    ..after
                }),
            decreases marked_ids.len() - i,
        {
            let id = marked_ids[i];
            let _ = table_remove(&mut self.posts, id);
            proof {
                let seen = marked_ids@.take(i as int);
                lemma_one_more(marked_ids@, i as int);
                assert(after.posts.remove_keys(seen.to_set()).remove(id)
                    =~= after.posts.remove_keys(seen.to_set().insert(id)));
                assert(self@ =~= StoreState {
                    posts: after.posts.remove_keys(seen.to_set().insert(id)),
                    ..after
                });
            }
            i = i + 1;
        }
        assert(marked_ids@.take(i as int) =~= marked_ids@);
    }

    /// Drops everything that the store holds.
    pub fn clear(&mut self)
        ensures
            final(self)@ == empty_store(),
            final(self).config() == old(self).config(),
    {
        table_clear(&mut self.posts);
        table_clear(&mut self.original_posts_by_user);
        table_clear(&mut self.secondary_posts_by_user);
        table_clear(&mut self.video_posts_by_user);
        table_clear(&mut self.deleted_posts);
        assert(self@ =~= empty_store());
    }

    /// How much the store holds.
    pub fn stats(&self) -> (stats: StoreStats)
        ensures
            stats.user_count == self@.original.dom().len(),
            stats.total_posts == self@.posts.dom().len(),
            stats.deleted_posts == self@.deleted.len(),
            stats.original_posts_count == saturated(listed_entries(self@.original)),
            stats.secondary_posts_count == saturated(listed_entries(self@.secondary)),
            stats.video_posts_count == saturated(listed_entries(self@.video)),
    {
        StoreStats {
            user_count: table_len(&self.original_posts_by_user),
            total_posts: table_len(&self.posts),
            deleted_posts: table_len(&self.deleted_posts),
            original_posts_count: count_entries(&self.original_posts_by_user),
            secondary_posts_count: count_entries(&self.secondary_posts_by_user),
            video_posts_count: count_entries(&self.video_posts_by_user),
        }
    }
}

} // verus!
