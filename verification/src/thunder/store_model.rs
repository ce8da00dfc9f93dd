//! What the post store holds, and what each of its operations makes of it.

use vstd::prelude::*;

use crate::ordering::stable_sorted;
use crate::seqs::first;
use crate::thunder::posts::{LightPost, TinyPost, TweetDeleteEvent};

verus! {

/// The contents of a post store.
#[verifier::ext_equal]
pub struct StoreState {
    /// The posts in full, by post id.
    pub posts: Map<i64, LightPost>,
    /// Posts that are neither replies nor retweets, by author; the deletions,
    /// by time, under the key set aside for them.
    pub original: Map<i64, Seq<TinyPost>>,
    /// Replies and retweets, by author.
    pub secondary: Map<i64, Seq<TinyPost>>,
    /// Posts with video, by author.
    pub video: Map<i64, Seq<TinyPost>>,
    /// The posts that were withdrawn.
    pub deleted: Set<i64>,
}

/// A store that holds nothing.
pub open spec fn empty_store() -> StoreState {
    StoreState {
        posts: Map::empty(),
        original: Map::empty(),
        secondary: Map::empty(),
        video: Map::empty(),
        deleted: Set::empty(),
    }
}

/// The timeline of `user`; empty where the table has none.
pub open spec fn timeline_of(table: Map<i64, Seq<TinyPost>>, user: i64) -> Seq<TinyPost> {
    if table.contains_key(user) {
        table[user]
    } else {
        Seq::empty()
    }
}

/// `table` with `entry` at the end of the timeline of `user`.
pub open spec fn pushed(
    table: Map<i64, Seq<TinyPost>>,
    user: i64,
    entry: TinyPost,
) -> Map<i64, Seq<TinyPost>> {
    table.insert(user, timeline_of(table, user).push(entry))
}

// Withdrawing posts.

/// Withdraws one post: its data goes, a mark stays, and the deletion is listed
/// in the timeline of `delete_event_key`.
pub open spec fn mark_one(
    s: StoreState,
    event: TweetDeleteEvent,
    delete_event_key: i64,
) -> StoreState {
    StoreState {
        posts: s.posts.remove(event.post_id),
        deleted: s.deleted.insert(event.post_id),
        original: pushed(
            s.original,
            delete_event_key,
            TinyPost { post_id: event.post_id, created_at: event.deleted_at },
        ),
        ..s
    }
}

/// Withdraws the posts of `events`, one after the other.
pub open spec fn marked(
    s: StoreState,
    events: Seq<TweetDeleteEvent>,
    delete_event_key: i64,
) -> StoreState
    decreases events.len(),
{
    if events.len() == 0 {
        s
    } else {
        mark_one(marked(s, events.drop_last(), delete_event_key), events.last(), delete_event_key)
    }
}

// Inserting posts.

/// Created before `now`, and at most `retention` seconds before.
pub open spec fn is_fresh(post: LightPost, now: u64, retention: u64) -> bool {
    post.created_at < now && now - post.created_at <= retention
}

/// The posts that an insertion at time `now` takes, in the order in which it
/// takes them: the fresh ones, the oldest first.
pub open spec fn admitted(posts: Seq<LightPost>, now: u64, retention: u64) -> Seq<LightPost> {
    stable_sorted(
        posts.filter(|p: LightPost| is_fresh(p, now, retention)),
        |p: LightPost| p.created_at as int,
    )
}

/// Whether a post is listed as a video, in a store that holds `posts`: it has
/// one, or it is a retweet of a stored video post that is neither a reply nor a
/// retweet. A reply never is.
pub open spec fn is_video_post(posts: Map<i64, LightPost>, post: LightPost) -> bool {
    !post.is_reply && (post.has_video || (post.is_retweet && match post.source_post_id {
        Some(source) => posts.contains_key(source) && !posts[source].is_reply
            && !posts[source].is_retweet && posts[source].has_video,
        None => false,
    }))
}

/// Inserts one post. A withdrawn post is ignored; of a post that is already
/// there only the data is replaced; a new post is also listed in the timelines
/// of its author.
pub open spec fn insert_one(s: StoreState, post: LightPost) -> StoreState {
    let posts = s.posts.insert(post.post_id, post);
    let entry = TinyPost { post_id: post.post_id, created_at: post.created_at };
    let is_original = !post.is_reply && !post.is_retweet;
    if s.deleted.contains(post.post_id) {
        s
    } else if s.posts.contains_key(post.post_id) {
        StoreState { posts, ..s }
    } else {
        StoreState {
            posts,
            original: if is_original {
                pushed(s.original, post.author_id, entry)
            } else {
                s.original
            },
            secondary: if is_original {
                s.secondary
            } else {
                pushed(s.secondary, post.author_id, entry)
            },
            video: if is_video_post(posts, post) {
                pushed(s.video, post.author_id, entry)
            } else {
                s.video
            },
            deleted: s.deleted,
        }
    }
}

/// Inserts `posts`, one after the other.
pub open spec fn inserted(s: StoreState, posts: Seq<LightPost>) -> StoreState
    decreases posts.len(),
{
    if posts.len() == 0 {
        s
    } else {
        insert_one(inserted(s, posts.drop_last()), posts.last())
    }
}

// Reading posts.

/// What a reader asks of each timeline.
pub struct Query {
    /// Posts that are not wanted.
    pub exclude: Set<i64>,
    /// The accounts that the reader follows; empty to take replies as they come.
    pub following: Set<i64>,
    /// Who reads.
    pub requester: i64,
    /// How many entries of a timeline are looked at.
    pub max_scan: nat,
    /// How many posts of a timeline are handed out.
    pub max_per_user: nat,
}

/// Whether a reply may be shown to someone who follows `following`: the post
/// that it answers is stored, and is either an original post or the first
/// answer in the conversation, given to someone who is followed.
pub open spec fn is_reply_shown(
    posts: Map<i64, LightPost>,
    post: LightPost,
    following: Set<i64>,
) -> bool {
    match post.in_reply_to_post_id {
        None => true,
        Some(parent) => posts.contains_key(parent) && {
            ||| !posts[parent].is_retweet && !posts[parent].is_reply
            ||| {
                &&& post.conversation_id is Some
                &&& posts[parent].in_reply_to_post_id == post.conversation_id
                &&& post.in_reply_to_user_id is Some
                &&& following.contains(post.in_reply_to_user_id->0)
            }
        },
    }
}

/// Whether a timeline entry yields a post: the post is stored and not
/// withdrawn, it is no retweet of the reader's own post, and where the reader
/// follows anyone it passes `is_reply_shown`.
pub open spec fn is_served(s: StoreState, entry: TinyPost, query: Query) -> bool {
    let post = s.posts[entry.post_id];
    &&& s.posts.contains_key(entry.post_id)
    &&& !s.deleted.contains(post.post_id)
    &&& !(post.is_retweet && post.source_user_id == Some(query.requester))
    &&& query.following.is_empty() || is_reply_shown(s.posts, post, query.following)
}

/// The entries that a query looks at: the newest first, without the excluded
/// ones, at most `max_scan`.
pub open spec fn scanned(timeline: Seq<TinyPost>, query: Query) -> Seq<TinyPost> {
    first(
        timeline.reverse().filter(|entry: TinyPost| !query.exclude.contains(entry.post_id)),
        query.max_scan,
    )
}

/// The posts that a query gets from one timeline.
pub open spec fn served(s: StoreState, timeline: Seq<TinyPost>, query: Query) -> Seq<LightPost> {
    first(
        scanned(timeline, query).filter(|entry: TinyPost| is_served(s, entry, query)),
        query.max_per_user,
    ).map_values(|entry: TinyPost| s.posts[entry.post_id])
}

/// The posts that a query gets from the timelines of `users`, one user after
/// the other.
pub open spec fn served_all(
    s: StoreState,
    table: Map<i64, Seq<TinyPost>>,
    users: Seq<i64>,
    query: Query,
) -> Seq<LightPost>
    decreases users.len(),
{
    if users.len() == 0 {
        Seq::empty()
    } else {
        served_all(s, table, users.drop_last(), query) + served(
            s,
            timeline_of(table, users.last()),
            query,
        )
    }
}

/// How many entries the timelines of `users` have, one user after the other.
pub open spec fn listed_by(table: Map<i64, Seq<TinyPost>>, users: Seq<i64>) -> nat
    decreases users.len(),
{
    if users.len() == 0 {
        0
    } else {
        listed_by(table, users.drop_last()) + timeline_of(table, users.last()).len()
    }
}

/// What a query gets that may stop before it has reached every user: the posts
/// of the users that it did reach. One that may not stop reaches all of them.
pub open spec fn is_answer(
    found: Seq<LightPost>,
    s: StoreState,
    table: Map<i64, Seq<TinyPost>>,
    users: Seq<i64>,
    query: Query,
    may_stop: bool,
) -> bool {
    exists|reached: int|
        {
            &&& 0 <= reached <= users.len()
            &&& !may_stop ==> reached == users.len()
            &&& found == served_all(s, table, #[trigger] users.take(reached), query)
        }
}

// Trimming and sorting.

/// Created more than `retention` seconds before `now`.
pub open spec fn is_expired(entry: TinyPost, now: u64, retention: u64) -> bool {
    now - entry.created_at > retention
}

/// How many entries at the front of a timeline are expired.
pub open spec fn expired_count(timeline: Seq<TinyPost>, now: u64, retention: u64) -> nat
    decreases timeline.len(),
{
    if timeline.len() == 0 || !is_expired(timeline[0], now, retention) {
        0
    } else {
        1 + expired_count(timeline.drop_first(), now, retention)
    }
}

/// The posts that `entries` list.
pub open spec fn ids_of(entries: Seq<TinyPost>) -> Set<i64> {
    Set::new(
        |id: i64| exists|i: int| 0 <= i < entries.len() && (#[trigger] entries[i]).post_id == id,
    )
}

/// The expired entries at the front of a timeline.
pub open spec fn expired_front(timeline: Seq<TinyPost>, now: u64, retention: u64) -> Seq<TinyPost> {
    timeline.take(expired_count(timeline, now, retention) as int)
}

/// What is left of a timeline without its expired front.
pub open spec fn kept_back(timeline: Seq<TinyPost>, now: u64, retention: u64) -> Seq<TinyPost> {
    timeline.skip(expired_count(timeline, now, retention) as int)
}

/// The posts listed in the expired fronts of the timelines of `users`.
pub open spec fn expired_ids(
    table: Map<i64, Seq<TinyPost>>,
    users: Set<i64>,
    now: u64,
    retention: u64,
) -> Set<i64> {
    Set::new(
        |id: i64|
            exists|user: i64| #[trigger]
                users.contains(user) && ids_of(
                    expired_front(timeline_of(table, user), now, retention),
                ).contains(id),
    )
}

/// `table` without the expired front of each timeline, and without the
/// timelines that are empty then.
pub open spec fn trimmed_table(
    table: Map<i64, Seq<TinyPost>>,
    now: u64,
    retention: u64,
) -> Map<i64, Seq<TinyPost>> {
    Map::new(
        |user: i64| table.contains_key(user) && kept_back(table[user], now, retention).len() > 0,
        |user: i64| kept_back(table[user], now, retention),
    )
}

/// The sum of `f` over a finite set of users.
pub open spec fn sum_over(users: Set<i64>, f: spec_fn(i64) -> nat) -> nat
    decreases users.len(),
    when users.finite()
{
    if users.len() == 0 {
        0
    } else {
        let user = users.choose();
        f(user) + sum_over(users.remove(user), f)
    }
}

/// How many entries a trimming of `table` takes out.
pub open spec fn trimmed_entries(table: Map<i64, Seq<TinyPost>>, now: u64, retention: u64) -> nat {
    sum_over(table.dom(), |user: i64| expired_count(timeline_of(table, user), now, retention))
}

/// How many entries the timelines of `table` list.
pub open spec fn listed_entries(table: Map<i64, Seq<TinyPost>>) -> nat {
    sum_over(table.dom(), |user: i64| timeline_of(table, user).len())
}

/// Trims one table of timelines: the posts of the entries that go are forgotten,
/// and so are the marks of the deletions among them.
pub open spec fn trim_one(
    posts: Map<i64, LightPost>,
    deleted: Set<i64>,
    table: Map<i64, Seq<TinyPost>>,
    delete_event_key: i64,
    now: u64,
    retention: u64,
) -> (Map<i64, LightPost>, Set<i64>) {
    (
        posts.remove_keys(expired_ids(table, table.dom(), now, retention)),
        deleted.difference(
            ids_of(expired_front(timeline_of(table, delete_event_key), now, retention)),
        ),
    )
}

/// The store after a trimming at time `now`.
pub open spec fn trimmed(
    s: StoreState,
    delete_event_key: i64,
    now: u64,
    retention: u64,
) -> StoreState {
    let one = trim_one(s.posts, s.deleted, s.original, delete_event_key, now, retention);
    let two = trim_one(one.0, one.1, s.secondary, delete_event_key, now, retention);
    let three = trim_one(two.0, two.1, s.video, delete_event_key, now, retention);
    StoreState {
        posts: three.0,
        original: trimmed_table(s.original, now, retention),
        secondary: trimmed_table(s.secondary, now, retention),
        video: trimmed_table(s.video, now, retention),
        deleted: three.1,
    }
}

/// A timeline in ascending order of creation.
pub open spec fn sorted_timeline(timeline: Seq<TinyPost>) -> Seq<TinyPost> {
    stable_sorted(timeline, |entry: TinyPost| entry.created_at as int)
}

/// `table` with every timeline in ascending order of creation.
pub open spec fn sorted_table(table: Map<i64, Seq<TinyPost>>) -> Map<i64, Seq<TinyPost>> {
    table.map_values(|timeline: Seq<TinyPost>| sorted_timeline(timeline))
}

/// The store with every timeline in ascending order of creation.
pub open spec fn sorted_store(s: StoreState) -> StoreState {
    StoreState {
        original: sorted_table(s.original),
        secondary: sorted_table(s.secondary),
        video: sorted_table(s.video),
        ..s
    }
}

/// The store once its initial load is over: timelines sorted, old posts trimmed
/// at time `now`, no post left that is marked as withdrawn.
pub open spec fn finalized(
    s: StoreState,
    delete_event_key: i64,
    now: u64,
    retention: u64,
) -> StoreState {
    let after = trimmed(sorted_store(s), delete_event_key, now, retention);
    StoreState { posts: after.posts.remove_keys(after.deleted), ..after }
}

/// A state that a store can be in: posts stand under their own id, and none is
/// marked as withdrawn.
pub open spec fn store_inv(s: StoreState) -> bool {
    &&& forall|id: i64| #[trigger] s.posts.contains_key(id) ==> s.posts[id].post_id == id
    &&& s.posts.dom().disjoint(s.deleted)
}

} // verus!
