//! What holds of the post store whatever is done to it.

use vstd::prelude::*;

use crate::ordering::{is_sorted_by, lemma_stable_sorted, lemma_stable_sorted_contains};
use crate::thunder::posts::{LightPost, TinyPost, TweetDeleteEvent};
use crate::thunder::store_model::{
    admitted, empty_store, expired_count, expired_front, expired_ids, finalized, ids_of, insert_one,
    inserted, is_answer, is_expired, is_fresh, is_served, is_video_post, kept_back, marked, pushed,
    scanned, served, served_all, sorted_store, sorted_table, sorted_timeline, store_inv,
    timeline_of, trimmed, trimmed_table, Query, StoreState,
};

verus! {

// Every operation leads from a valid state to a valid state.

/// An empty store is valid.
pub proof fn law_empty_store_is_valid()
    ensures
        store_inv(empty_store()),
{
}

/// Withdrawing posts keeps a store valid.
pub proof fn law_marking_keeps_valid(s: StoreState, events: Seq<TweetDeleteEvent>, key: i64)
    requires
        store_inv(s),
    ensures
        store_inv(marked(s, events, key)),
    decreases events.len(),
{
    if events.len() > 0 {
        law_marking_keeps_valid(s, events.drop_last(), key);
    }
}

/// Inserting posts keeps a store valid.
pub proof fn law_inserting_keeps_valid(s: StoreState, posts: Seq<LightPost>)
    requires
        store_inv(s),
    ensures
        store_inv(inserted(s, posts)),
    decreases posts.len(),
{
    if posts.len() > 0 {
        law_inserting_keeps_valid(s, posts.drop_last());
    }
}

proof fn lemma_trim_shrinks(s: StoreState, key: i64, now: u64, retention: u64)
    ensures
        forall|id: i64| #[trigger]
            trimmed(s, key, now, retention).posts.contains_key(id) ==> s.posts.contains_key(id)
                && trimmed(s, key, now, retention).posts[id] == s.posts[id],
        trimmed(s, key, now, retention).deleted.subset_of(s.deleted),
{
}

/// Trimming keeps a store valid.
pub proof fn law_trimming_keeps_valid(s: StoreState, key: i64, now: u64, retention: u64)
    requires
        store_inv(s),
    ensures
        store_inv(trimmed(s, key, now, retention)),
{
    lemma_trim_shrinks(s, key, now, retention);
    let t = trimmed(s, key, now, retention);
    assert forall|id: i64| !(t.posts.dom().contains(id) && t.deleted.contains(id)) by {
        if t.posts.contains_key(id) && t.deleted.contains(id) {
            assert(s.posts.dom().contains(id) && s.deleted.contains(id));
        }
    }
}

/// Sorting the timelines keeps a store valid.
pub proof fn law_sorting_keeps_valid(s: StoreState)
    requires
        store_inv(s),
    ensures
        store_inv(sorted_store(s)),
{
}

/// Ending the initial load leaves a valid store, whatever it held before,
/// provided that posts stood under their own id.
pub proof fn law_finalizing_makes_valid(s: StoreState, key: i64, now: u64, retention: u64)
    requires
        forall|id: i64| #[trigger] s.posts.contains_key(id) ==> s.posts[id].post_id == id,
    ensures
        store_inv(finalized(s, key, now, retention)),
{
    let after = trimmed(sorted_store(s), key, now, retention);
    lemma_trim_shrinks(sorted_store(s), key, now, retention);
    assert forall|id: i64| #[trigger]
        finalized(s, key, now, retention).posts.contains_key(id) implies finalized(
        s,
        key,
        now,
        retention,
    ).posts[id].post_id == id by {
        assert(after.posts.contains_key(id));
    }
}

// Withdrawn posts.

/// A post is gone and marked once its withdrawal was taken in.
pub proof fn law_marked_posts_are_gone(
    s: StoreState,
    events: Seq<TweetDeleteEvent>,
    key: i64,
    i: int,
)
    requires
        0 <= i < events.len(),
    ensures
        marked(s, events, key).deleted.contains(events[i].post_id),
        !marked(s, events, key).posts.contains_key(events[i].post_id),
    decreases events.len(),
{
    if i < events.len() - 1 {
        law_marked_posts_are_gone(s, events.drop_last(), key, i);
    }
}

/// A marked post cannot be inserted: creation and withdrawal may arrive in
/// either order.
pub proof fn law_marked_posts_stay_out(s: StoreState, posts: Seq<LightPost>, id: i64)
    requires
        s.deleted.contains(id),
        !s.posts.contains_key(id),
    ensures
        inserted(s, posts).deleted == s.deleted,
        !inserted(s, posts).posts.contains_key(id),
    decreases posts.len(),
{
    if posts.len() > 0 {
        law_marked_posts_stay_out(s, posts.drop_last(), id);
    }
}

/// A batch that was taken in at time `now`.
pub struct TakenBatch {
    pub posts: Seq<LightPost>,
    pub withdrawals: Seq<TweetDeleteEvent>,
    pub now: u64,
}

/// The store after a batch: its posts go in first, then its withdrawals.
pub open spec fn with_batch(
    s: StoreState,
    batch: TakenBatch,
    key: i64,
    retention: u64,
) -> StoreState {
    marked(inserted(s, admitted(batch.posts, batch.now, retention)), batch.withdrawals, key)
}

/// The store after `batches`, one after the other.
pub open spec fn with_batches(
    s: StoreState,
    batches: Seq<TakenBatch>,
    key: i64,
    retention: u64,
) -> StoreState
    decreases batches.len(),
{
    if batches.len() == 0 {
        s
    } else {
        with_batch(
            with_batches(s, batches.drop_last(), key, retention),
            batches.last(),
            key,
            retention,
        )
    }
}

/// However many batches are taken in, at whatever times, a post that one of them
/// withdrew is marked and gone, also where a batch before, after or the same one
/// brings it.
pub proof fn law_withdrawals_prevail(
    s: StoreState,
    batches: Seq<TakenBatch>,
    key: i64,
    retention: u64,
    b: int,
    i: int,
)
    requires
        0 <= b < batches.len(),
        0 <= i < batches[b].withdrawals.len(),
    ensures
        with_batches(s, batches, key, retention).deleted.contains(
            batches[b].withdrawals[i].post_id,
        ),
        !with_batches(s, batches, key, retention).posts.contains_key(
            batches[b].withdrawals[i].post_id,
        ),
    decreases batches.len(),
{
    let id = batches[b].withdrawals[i].post_id;
    let before = with_batches(s, batches.drop_last(), key, retention);
    let last = batches.last();
    let filled = inserted(before, admitted(last.posts, last.now, retention));
    if b < batches.len() - 1 {
        law_withdrawals_prevail(s, batches.drop_last(), key, retention, b, i);
        law_marked_posts_stay_out(before, admitted(last.posts, last.now, retention), id);
        lemma_marks_stay(filled, last.withdrawals, key, id);
    } else {
        law_marked_posts_are_gone(filled, last.withdrawals, key, i);
    }
}

proof fn lemma_marks_stay(s: StoreState, events: Seq<TweetDeleteEvent>, key: i64, id: i64)
    requires
        s.deleted.contains(id),
        !s.posts.contains_key(id),
    ensures
        marked(s, events, key).deleted.contains(id),
        !marked(s, events, key).posts.contains_key(id),
    decreases events.len(),
{
    if events.len() > 0 {
        lemma_marks_stay(s, events.drop_last(), key, id);
    }
}

/// A marked post is never handed out.
pub proof fn law_marked_posts_are_not_served(
    s: StoreState,
    timeline: Seq<TinyPost>,
    query: Query,
    i: int,
)
    requires
        0 <= i < served(s, timeline, query).len(),
    ensures
        !s.deleted.contains(served(s, timeline, query)[i].post_id),
{
    law_served_posts_qualify(s, timeline, query, i);
}

// Insertion.

/// Inserting the same post again changes nothing.
pub proof fn law_insertion_is_idempotent(s: StoreState, post: LightPost)
    ensures
        insert_one(insert_one(s, post), post) == insert_one(s, post),
{
    let once = insert_one(s, post);
    if !s.deleted.contains(post.post_id) {
        assert(once.posts.insert(post.post_id, post) =~= once.posts);
    }
}

/// A post that is already stored is listed once: inserting it again, changed or
/// not, leaves every timeline as it is.
pub proof fn law_known_posts_are_not_listed_again(s: StoreState, post: LightPost)
    requires
        s.posts.contains_key(post.post_id),
    ensures
        insert_one(s, post).original == s.original,
        insert_one(s, post).secondary == s.secondary,
        insert_one(s, post).video == s.video,
{
}

/// A reply is never listed as a video.
pub proof fn law_replies_are_no_videos(s: StoreState, post: LightPost)
    requires
        post.is_reply,
    ensures
        insert_one(s, post).video == s.video,
{
}

/// Only fresh posts get in, and none that is fresh is left out.
pub proof fn law_admitted_posts_are_the_fresh_ones(
    posts: Seq<LightPost>,
    now: u64,
    retention: u64,
    post: LightPost,
)
    ensures
        admitted(posts, now, retention).contains(post) <==> posts.contains(post) && is_fresh(
            post,
            now,
            retention,
        ),
{
    let fresh_at = |p: LightPost| is_fresh(p, now, retention);
    let fresh = posts.filter(fresh_at);
    lemma_stable_sorted_contains(fresh, |p: LightPost| p.created_at as int, post);
    if posts.contains(post) && fresh_at(post) {
        let i = choose|i: int| 0 <= i < posts.len() && posts[i] == post;
        posts.lemma_filter_contains(fresh_at, i);
    }
    if fresh.contains(post) {
        posts.lemma_filter_contains_rev(fresh_at, post);
        let i = choose|i: int| 0 <= i < fresh.len() && fresh[i] == post;
        posts.lemma_filter_pred(fresh_at, i);
    }
}

/// Every timeline of `table` is in ascending order of creation, and none of its
/// entries is younger than `newest`.
pub open spec fn is_chronological(table: Map<i64, Seq<TinyPost>>, newest: int) -> bool {
    forall|user: i64| #[trigger]
        table.contains_key(user) ==> is_sorted_by(
            table[user],
            |entry: TinyPost| entry.created_at as int,
        ) && forall|i: int|
            0 <= i < table[user].len() ==> (#[trigger] table[user][i]).created_at <= newest
}

/// Every timeline of the store is in ascending order of creation, and none of
/// its entries is younger than `newest`.
pub open spec fn is_chronological_store(s: StoreState, newest: int) -> bool {
    &&& is_chronological(s.original, newest)
    &&& is_chronological(s.secondary, newest)
    &&& is_chronological(s.video, newest)
}

proof fn lemma_push_keeps_chronological(
    table: Map<i64, Seq<TinyPost>>,
    user: i64,
    entry: TinyPost,
    newest: int,
)
    requires
        is_chronological(table, newest),
        newest <= entry.created_at,
    ensures
        is_chronological(pushed(table, user, entry), entry.created_at as int),
{
    let by_time = |entry: TinyPost| entry.created_at as int;
    let after = pushed(table, user, entry);
    assert forall|u: i64| #[trigger] after.contains_key(u) implies is_sorted_by(after[u], by_time)
        && forall|i: int|
        0 <= i < after[u].len() ==> (#[trigger] after[u][i]).created_at <= entry.created_at by {
        if u == user {
            let timeline = timeline_of(table, user);
            assert(after[u] == timeline.push(entry));
            assert(is_sorted_by(timeline, by_time));
            assert forall|i: int| 0 <= i < after[u].len() implies (
            #[trigger] after[u][i]).created_at <= entry.created_at by {
                if i < timeline.len() {
                    assert(timeline[i].created_at <= newest);
                }
            }
            assert forall|i: int, j: int| 0 <= i <= j < after[u].len() implies by_time(
                #[trigger] after[u][i],
            ) <= by_time(#[trigger] after[u][j]) by {
                if j < timeline.len() {
                    assert(by_time(timeline[i]) <= by_time(timeline[j]));
                }
            }
        } else {
            assert(table.contains_key(u));
        }
    }
}

proof fn lemma_chronological_grows(table: Map<i64, Seq<TinyPost>>, newest: int, later: int)
    requires
        is_chronological(table, newest),
        newest <= later,
    ensures
        is_chronological(table, later),
{
    assert forall|u: i64| #[trigger] table.contains_key(u) implies is_sorted_by(
        table[u],
        |entry: TinyPost| entry.created_at as int,
    ) && forall|i: int|
        0 <= i < table[u].len() ==> (#[trigger] table[u][i]).created_at <= later by {
        assert forall|i: int| 0 <= i < table[u].len() implies (#[trigger] table[u][i]).created_at
            <= later by {
            assert(table[u][i].created_at <= newest);
        }
    }
}

/// Posts that come in the order of their creation, none older than what is
/// listed already, leave every timeline in that order.
pub proof fn law_ordered_insertion_keeps_order(s: StoreState, posts: Seq<LightPost>, newest: int)
    requires
        is_chronological_store(s, newest),
        is_sorted_by(posts, |p: LightPost| p.created_at as int),
        posts.len() > 0 ==> newest <= posts[0].created_at,
    ensures
        is_chronological_store(
            inserted(s, posts),
            if posts.len() > 0 {
                posts.last().created_at as int
            } else {
                newest
            },
        ),
    decreases posts.len(),
{
    if posts.len() > 0 {
        let front = posts.drop_last();
        let by_time = |p: LightPost| p.created_at as int;
        assert(is_sorted_by(front, by_time)) by {
            assert forall|i: int, j: int| 0 <= i <= j < front.len() implies by_time(
                #[trigger] front[i],
            ) <= by_time(#[trigger] front[j]) by {
                assert(by_time(posts[i]) <= by_time(posts[j]));
            }
        }
        law_ordered_insertion_keeps_order(s, front, newest);
        let mid = inserted(s, front);
        let reached = if front.len() > 0 {
            front.last().created_at as int
        } else {
            newest
        };
        let post = posts.last();
        assert(reached <= post.created_at) by {
            if front.len() > 0 {
                assert(by_time(posts[posts.len() - 2]) <= by_time(posts[posts.len() - 1]));
            }
        }
        let entry = TinyPost { post_id: post.post_id, created_at: post.created_at };
        lemma_push_keeps_chronological(mid.original, post.author_id, entry, reached);
        lemma_push_keeps_chronological(mid.secondary, post.author_id, entry, reached);
        lemma_push_keeps_chronological(mid.video, post.author_id, entry, reached);
        lemma_chronological_grows(mid.original, reached, post.created_at as int);
        lemma_chronological_grows(mid.secondary, reached, post.created_at as int);
        lemma_chronological_grows(mid.video, reached, post.created_at as int);
    }
}

/// An insertion takes its posts in the order of their creation.
pub proof fn law_admitted_posts_come_oldest_first(posts: Seq<LightPost>, now: u64, retention: u64)
    ensures
        is_sorted_by(admitted(posts, now, retention), |p: LightPost| p.created_at as int),
{
    lemma_stable_sorted(
        posts.filter(|p: LightPost| is_fresh(p, now, retention)),
        |p: LightPost| p.created_at as int,
    );
}

// Queries.

proof fn lemma_scanned_entry(timeline: Seq<TinyPost>, query: Query, i: int)
    requires
        0 <= i < scanned(timeline, query).len(),
    ensures
        !query.exclude.contains(scanned(timeline, query)[i].post_id),
        timeline.contains(scanned(timeline, query)[i]),
{
    let wanted = |entry: TinyPost| !query.exclude.contains(entry.post_id);
    let newest = timeline.reverse();
    newest.lemma_filter_pred(wanted, i);
    assert(newest.filter(wanted).contains(newest.filter(wanted)[i]));
    newest.lemma_filter_contains_rev(wanted, newest.filter(wanted)[i]);
    let j = choose|j: int| 0 <= j < newest.len() && newest[j] == newest.filter(wanted)[i];
    assert(timeline[timeline.len() - 1 - j] == newest.filter(wanted)[i]);
}

/// Every post that a timeline yields is listed there, is stored, is not
/// excluded, not withdrawn, and not a retweet of the reader's own post.
pub proof fn law_served_posts_qualify(
    s: StoreState,
    timeline: Seq<TinyPost>,
    query: Query,
    i: int,
)
    requires
        0 <= i < served(s, timeline, query).len(),
    ensures
        exists|entry: TinyPost| #[trigger]
            timeline.contains(entry) && !query.exclude.contains(entry.post_id)
                && s.posts.contains_key(entry.post_id) && s.posts[entry.post_id] == served(
                s,
                timeline,
                query,
            )[i],
        !s.deleted.contains(served(s, timeline, query)[i].post_id),
        !(served(s, timeline, query)[i].is_retweet && served(s, timeline, query)[i].source_user_id
            == Some(query.requester)),
{
    let passes = |entry: TinyPost| is_served(s, entry, query);
    let window = scanned(timeline, query);
    let all = window.filter(passes);
    let entry = all[i];
    window.lemma_filter_pred(passes, i);
    assert(passes(entry));
    assert(all.contains(entry));
    window.lemma_filter_contains_rev(passes, entry);
    let j = choose|j: int| 0 <= j < window.len() && window[j] == entry;
    lemma_scanned_entry(timeline, query, j);
    assert(served(s, timeline, query)[i] == s.posts[entry.post_id]);
}

/// In a valid store no excluded post is handed out.
pub proof fn law_excluded_posts_are_not_served(
    s: StoreState,
    timeline: Seq<TinyPost>,
    query: Query,
    i: int,
)
    requires
        store_inv(s),
        0 <= i < served(s, timeline, query).len(),
    ensures
        !query.exclude.contains(served(s, timeline, query)[i].post_id),
{
    law_served_posts_qualify(s, timeline, query, i);
}

/// No timeline yields more than `max_per_user` posts.
pub proof fn law_served_posts_are_capped(s: StoreState, timeline: Seq<TinyPost>, query: Query)
    ensures
        served(s, timeline, query).len() <= query.max_per_user,
{
}

/// `users` users yield at most `max_per_user` posts each.
pub proof fn law_all_served_posts_are_capped(
    s: StoreState,
    table: Map<i64, Seq<TinyPost>>,
    users: Seq<i64>,
    query: Query,
)
    ensures
        served_all(s, table, users, query).len() <= users.len() * query.max_per_user,
    decreases users.len(),
{
    if users.len() > 0 {
        law_all_served_posts_are_capped(s, table, users.drop_last(), query);
        let n = users.len();
        let m = query.max_per_user;
        assert((n - 1) * m + m == n * m) by (nonlinear_arith);
    }
}

/// Every post that a query hands out comes from the timeline of one of its
/// users.
pub proof fn law_answers_come_from_the_users(
    s: StoreState,
    table: Map<i64, Seq<TinyPost>>,
    users: Seq<i64>,
    query: Query,
    post: LightPost,
)
    requires
        served_all(s, table, users, query).contains(post),
    ensures
        exists|i: int|
            0 <= i < users.len() && served(
                s,
                timeline_of(table, #[trigger] users[i]),
                query,
            ).contains(post),
    decreases users.len(),
{
    if users.len() > 0 {
        let before = served_all(s, table, users.drop_last(), query);
        let last = served(s, timeline_of(table, users.last()), query);
        let k = choose|k: int| 0 <= k < (before + last).len() && (before + last)[k] == post;
        if k < before.len() {
            assert(before[k] == post);
            law_answers_come_from_the_users(s, table, users.drop_last(), query, post);
            let i = choose|i: int|
                0 <= i < users.drop_last().len() && served(
                    s,
                    timeline_of(table, #[trigger] users.drop_last()[i]),
                    query,
                ).contains(post);
            assert(users[i] == users.drop_last()[i]);
        } else {
            assert(last[k - before.len()] == post);
            assert(users[users.len() - 1] == users.last());
        }
    }
}

/// A query that cannot stop early answers for every user.
pub proof fn law_answers_are_complete_without_timeout(
    found: Seq<LightPost>,
    s: StoreState,
    table: Map<i64, Seq<TinyPost>>,
    users: Seq<i64>,
    query: Query,
)
    ensures
        is_answer(found, s, table, users, query, false) <==> found == served_all(
            s,
            table,
            users,
            query,
        ),
{
    assert(users.take(users.len() as int) =~= users);
}

/// A query that stops early answers with the beginning of the full answer.
pub proof fn law_answers_cut_short_are_prefixes(
    s: StoreState,
    table: Map<i64, Seq<TinyPost>>,
    users: Seq<i64>,
    query: Query,
    reached: int,
)
    requires
        0 <= reached <= users.len(),
    ensures
        served_all(s, table, users.take(reached), query).is_prefix_of(
            served_all(s, table, users, query),
        ),
    decreases users.len(),
{
    let part = served_all(s, table, users.take(reached), query);
    let all = served_all(s, table, users, query);
    if reached == users.len() {
        assert(users.take(reached) =~= users);
        assert(all.subrange(0, all.len() as int) =~= all);
    } else {
        let front = users.drop_last();
        let before = served_all(s, table, front, query);
        law_answers_cut_short_are_prefixes(s, table, front, query, reached);
        assert(front.take(reached) =~= users.take(reached));
        assert(all.subrange(0, part.len() as int) =~= before.subrange(0, part.len() as int));
    }
}

/// An empty store answers every query with nothing.
pub proof fn law_empty_store_serves_nothing(
    found: Seq<LightPost>,
    table: Map<i64, Seq<TinyPost>>,
    users: Seq<i64>,
    query: Query,
    may_stop: bool,
)
    requires
        is_answer(found, empty_store(), table, users, query, may_stop),
    ensures
        found.len() == 0,
{
    let reached = choose|reached: int|
        {
            &&& 0 <= reached <= users.len()
            &&& found == served_all(empty_store(), table, #[trigger] users.take(reached), query)
        };
    if found.len() > 0 {
        assert(found.contains(found[0]));
        law_answers_come_from_the_users(
            empty_store(),
            table,
            users.take(reached),
            query,
            found[0],
        );
        let i = choose|i: int|
            0 <= i < users.take(reached).len() && served(
                empty_store(),
                timeline_of(table, #[trigger] users.take(reached)[i]),
                query,
            ).contains(found[0]);
        let timeline = timeline_of(table, users.take(reached)[i]);
        let k = choose|k: int|
            0 <= k < served(empty_store(), timeline, query).len() && served(
                empty_store(),
                timeline,
                query,
            )[k] == found[0];
        law_served_posts_qualify(empty_store(), timeline, query, k);
    }
}

/// A timeline in ascending order of creation is read from the newest entry to
/// the oldest.
pub proof fn law_sorted_timelines_are_read_newest_first(
    timeline: Seq<TinyPost>,
    query: Query,
    i: int,
    j: int,
)
    requires
        is_sorted_by(timeline, |entry: TinyPost| entry.created_at as int),
        0 <= i <= j < scanned(timeline, query).len(),
    ensures
        scanned(timeline, query)[j].created_at <= scanned(timeline, query)[i].created_at,
{
    let wanted = |entry: TinyPost| !query.exclude.contains(entry.post_id);
    let by_time = |entry: TinyPost| entry.created_at as int;
    assert forall|a: int, b: int| 0 <= a <= b < timeline.reverse().len() implies (
    #[trigger] timeline.reverse()[b]).created_at <= (
    #[trigger] timeline.reverse()[a]).created_at by {
        assert(by_time(timeline[timeline.len() - 1 - b]) <= by_time(
            timeline[timeline.len() - 1 - a],
        ));
    }
    lemma_filter_keeps_descending(timeline.reverse(), wanted);
    let all = timeline.reverse().filter(wanted);
    assert(all[j].created_at <= all[i].created_at);
}

proof fn lemma_filter_keeps_descending(s: Seq<TinyPost>, p: spec_fn(TinyPost) -> bool)
    requires
        forall|a: int, b: int|
            0 <= a <= b < s.len() ==> (#[trigger] s[b]).created_at <= (#[trigger] s[a]).created_at,
    ensures
        forall|a: int, b: int|
            0 <= a <= b < s.filter(p).len() ==> (#[trigger] s.filter(p)[b]).created_at <= (
            #[trigger] s.filter(p)[a]).created_at,
        s.len() > 0 ==> forall|a: int|
            0 <= a < s.filter(p).len() ==> s.last().created_at <= (
            #[trigger] s.filter(p)[a]).created_at,
    decreases s.len(),
{
    reveal(Seq::filter);
    if s.len() > 0 {
        let front = s.drop_last();
        lemma_filter_keeps_descending(front, p);
        assert forall|a: int| 0 <= a < s.filter(p).len() implies s.last().created_at <= (
        #[trigger] s.filter(p)[a]).created_at by {
            if a < front.filter(p).len() {
                assert(front.last().created_at <= front.filter(p)[a].created_at);
                assert(s[s.len() - 1].created_at <= s[s.len() - 2].created_at);
            }
        }
        assert forall|a: int, b: int| 0 <= a <= b < s.filter(p).len() implies (
        #[trigger] s.filter(p)[b]).created_at <= (#[trigger] s.filter(p)[a]).created_at by {
            if b < front.filter(p).len() {
                assert(front.filter(p)[b].created_at <= front.filter(p)[a].created_at);
            }
        }
    }
}

proof fn lemma_filter_first<T>(s: Seq<T>, p: spec_fn(T) -> bool)
    requires
        s.len() > 0,
        p(s[0]),
    ensures
        s.filter(p).len() > 0,
        s.filter(p)[0] == s[0],
{
    let rest = s.drop_first();
    assert(s =~= seq![s[0]] + rest);
    rest.lemma_filter_prepend(s[0], p);
}

proof fn lemma_last_entry_is_served_first(
    s: StoreState,
    timeline: Seq<TinyPost>,
    query: Query,
    entry: TinyPost,
)
    requires
        timeline.len() > 0,
        timeline.last() == entry,
        !query.exclude.contains(entry.post_id),
        is_served(s, entry, query),
        query.max_scan > 0,
        query.max_per_user > 0,
    ensures
        served(s, timeline, query).len() > 0,
        served(s, timeline, query)[0] == s.posts[entry.post_id],
{
    let newest = timeline.reverse();
    assert(newest[0] == entry);
    lemma_filter_first(newest, |e: TinyPost| !query.exclude.contains(e.post_id));
    let window = scanned(timeline, query);
    assert(window[0] == entry);
    lemma_filter_first(window, |e: TinyPost| is_served(s, e, query));
}

/// What was inserted can be read: the newest post of an author is the first
/// that the author's timeline yields, unless the query rules it out.
pub proof fn law_new_posts_are_read_first(s: StoreState, post: LightPost, query: Query)
    requires
        !s.deleted.contains(post.post_id),
        !s.posts.contains_key(post.post_id),
        !query.exclude.contains(post.post_id),
        query.max_scan > 0,
        query.max_per_user > 0,
        is_served(
            insert_one(s, post),
            TinyPost { post_id: post.post_id, created_at: post.created_at },
            query,
        ),
    ensures
        !post.is_reply && !post.is_retweet ==> served(
            insert_one(s, post),
            timeline_of(insert_one(s, post).original, post.author_id),
            query,
        ).len() > 0 && served(
            insert_one(s, post),
            timeline_of(insert_one(s, post).original, post.author_id),
            query,
        )[0] == post,
        post.is_reply || post.is_retweet ==> served(
            insert_one(s, post),
            timeline_of(insert_one(s, post).secondary, post.author_id),
            query,
        ).len() > 0 && served(
            insert_one(s, post),
            timeline_of(insert_one(s, post).secondary, post.author_id),
            query,
        )[0] == post,
        is_video_post(insert_one(s, post).posts, post) ==> served(
            insert_one(s, post),
            timeline_of(insert_one(s, post).video, post.author_id),
            query,
        ).len() > 0 && served(
            insert_one(s, post),
            timeline_of(insert_one(s, post).video, post.author_id),
            query,
        )[0] == post,
{
    let after = insert_one(s, post);
    let entry = TinyPost { post_id: post.post_id, created_at: post.created_at };
    if !post.is_reply && !post.is_retweet {
        lemma_last_entry_is_served_first(
            after,
            timeline_of(after.original, post.author_id),
            query,
            entry,
        );
    } else {
        lemma_last_entry_is_served_first(
            after,
            timeline_of(after.secondary, post.author_id),
            query,
            entry,
        );
    }
    if is_video_post(after.posts, post) {
        lemma_last_entry_is_served_first(
            after,
            timeline_of(after.video, post.author_id),
            query,
            entry,
        );
    }
}

/// A new original post passes every query that does not exclude it.
pub proof fn law_new_original_posts_pass(s: StoreState, post: LightPost, query: Query)
    requires
        !s.deleted.contains(post.post_id),
        !post.is_retweet,
        post.in_reply_to_post_id is None,
    ensures
        is_served(
            insert_one(s, post),
            TinyPost { post_id: post.post_id, created_at: post.created_at },
            query,
        ),
{
}

// Trimming.

proof fn lemma_expired_count(timeline: Seq<TinyPost>, now: u64, retention: u64)
    ensures
        expired_count(timeline, now, retention) <= timeline.len(),
        forall|i: int|
            0 <= i < expired_count(timeline, now, retention) ==> is_expired(
                #[trigger] timeline[i],
                now,
                retention,
            ),
        expired_count(timeline, now, retention) < timeline.len() ==> !is_expired(
            timeline[expired_count(timeline, now, retention) as int],
            now,
            retention,
        ),
    decreases timeline.len(),
{
    if timeline.len() > 0 && is_expired(timeline[0], now, retention) {
        let rest = timeline.drop_first();
        lemma_expired_count(rest, now, retention);
        assert forall|i: int| 0 <= i < expired_count(timeline, now, retention) implies is_expired(
            #[trigger] timeline[i],
            now,
            retention,
        ) by {
            if i > 0 {
                assert(is_expired(rest[i - 1], now, retention));
            }
        }
    }
}

proof fn lemma_insertion_keeps_marks(s: StoreState, posts: Seq<LightPost>)
    ensures
        inserted(s, posts).deleted == s.deleted,
    decreases posts.len(),
{
    if posts.len() > 0 {
        lemma_insertion_keeps_marks(s, posts.drop_last());
    }
}

proof fn lemma_other_posts_stay_unknown(s: StoreState, posts: Seq<LightPost>, id: i64)
    requires
        !s.posts.contains_key(id),
        forall|j: int| 0 <= j < posts.len() ==> (#[trigger] posts[j]).post_id != id,
    ensures
        !inserted(s, posts).posts.contains_key(id),
    decreases posts.len(),
{
    if posts.len() > 0 {
        let front = posts.drop_last();
        assert forall|j: int| 0 <= j < front.len() implies (#[trigger] front[j]).post_id != id by {
            assert(posts[j].post_id != id);
        }
        lemma_other_posts_stay_unknown(s, front, id);
        assert(posts[posts.len() - 1].post_id != id);
    }
}

/// The entry under which a post is listed.
pub open spec fn entry_of(post: LightPost) -> TinyPost {
    TinyPost { post_id: post.post_id, created_at: post.created_at }
}

/// `s` lists `post` among the posts of its author.
pub open spec fn is_listed(s: StoreState, post: LightPost) -> bool {
    if !post.is_reply && !post.is_retweet {
        timeline_of(s.original, post.author_id).contains(entry_of(post))
    } else {
        timeline_of(s.secondary, post.author_id).contains(entry_of(post))
    }
}

proof fn lemma_push_keeps_entries(
    table: Map<i64, Seq<TinyPost>>,
    user: i64,
    entry: TinyPost,
    owner: i64,
    listed: TinyPost,
)
    ensures
        timeline_of(table, owner).contains(listed) ==> timeline_of(
            pushed(table, user, entry),
            owner,
        ).contains(listed),
        timeline_of(pushed(table, user, entry), user).contains(entry),
{
    let before = timeline_of(table, owner);
    let after = timeline_of(pushed(table, user, entry), owner);
    if before.contains(listed) {
        let i = choose|i: int| 0 <= i < before.len() && before[i] == listed;
        assert(after[i] == listed);
    }
    let own = timeline_of(pushed(table, user, entry), user);
    assert(own[own.len() - 1] == entry);
}

proof fn lemma_insertion_keeps_listed(s: StoreState, post: LightPost, listed: LightPost)
    requires
        is_listed(s, listed),
    ensures
        is_listed(insert_one(s, post), listed),
{
    let entry = entry_of(post);
    lemma_push_keeps_entries(
        s.original,
        post.author_id,
        entry,
        listed.author_id,
        entry_of(listed),
    );
    lemma_push_keeps_entries(
        s.secondary,
        post.author_id,
        entry,
        listed.author_id,
        entry_of(listed),
    );
}

/// Every post of a batch that is neither known nor withdrawn is stored, and listed
/// among the posts of its author, whatever else the batch holds.
pub proof fn law_new_posts_are_listed(s: StoreState, posts: Seq<LightPost>, i: int)
    requires
        0 <= i < posts.len(),
        !s.deleted.contains(posts[i].post_id),
        !s.posts.contains_key(posts[i].post_id),
        forall|j: int| 0 <= j < i ==> (#[trigger] posts[j]).post_id != posts[i].post_id,
    ensures
        inserted(s, posts).posts.contains_key(posts[i].post_id),
        is_listed(inserted(s, posts), posts[i]),
    decreases posts.len(),
{
    let front = posts.drop_last();
    let before = inserted(s, front);
    let post = posts[i];
    lemma_insertion_keeps_marks(s, front);
    if i < front.len() {
        assert forall|j: int| 0 <= j < i implies (#[trigger] front[j]).post_id
            != front[i].post_id by {
            assert(posts[j].post_id != post.post_id);
        }
        law_new_posts_are_listed(s, front, i);
        lemma_insertion_keeps_listed(before, posts.last(), post);
    } else {
        assert forall|j: int| 0 <= j < front.len() implies (#[trigger] front[j]).post_id
            != post.post_id by {
            assert(posts[j].post_id != post.post_id);
        }
        lemma_other_posts_stay_unknown(s, front, post.post_id);
        lemma_push_keeps_entries(
            before.original,
            post.author_id,
            entry_of(post),
            post.author_id,
            entry_of(post),
        );
        lemma_push_keeps_entries(
            before.secondary,
            post.author_id,
            entry_of(post),
            post.author_id,
            entry_of(post),
        );
    }
}

/// What is listed can be read: an entry that qualifies yields its post, where the
/// query looks at the whole timeline and is not capped below its length.
pub proof fn law_listed_posts_are_served(
    s: StoreState,
    timeline: Seq<TinyPost>,
    query: Query,
    entry: TinyPost,
)
    requires
        timeline.contains(entry),
        !query.exclude.contains(entry.post_id),
        is_served(s, entry, query),
        timeline.len() <= query.max_scan,
        timeline.len() <= query.max_per_user,
    ensures
        served(s, timeline, query).contains(s.posts[entry.post_id]),
{
    let wanted = |e: TinyPost| !query.exclude.contains(e.post_id);
    let passes = |e: TinyPost| is_served(s, e, query);
    let newest_first = timeline.reverse();
    let seen = newest_first.filter(wanted);
    newest_first.lemma_filter_len(wanted);
    assert(scanned(timeline, query) == seen);
    seen.lemma_filter_len(passes);
    let yielded = seen.filter(passes);
    let k = choose|k: int| 0 <= k < timeline.len() && timeline[k] == entry;
    assert(newest_first[timeline.len() - 1 - k] == entry);
    newest_first.lemma_filter_contains(wanted, timeline.len() - 1 - k);
    let m = choose|m: int| 0 <= m < seen.len() && seen[m] == entry;
    seen.lemma_filter_contains(passes, m);
    let n = choose|n: int| 0 <= n < yielded.len() && yielded[n] == entry;
    assert(served(s, timeline, query)[n] == s.posts[entry.post_id]);
}

/// Only expired entries are trimmed.
pub proof fn law_only_expired_entries_are_trimmed(
    timeline: Seq<TinyPost>,
    now: u64,
    retention: u64,
    i: int,
)
    requires
        0 <= i < expired_front(timeline, now, retention).len(),
    ensures
        is_expired(expired_front(timeline, now, retention)[i], now, retention),
        timeline == expired_front(timeline, now, retention) + kept_back(timeline, now, retention),
{
    lemma_expired_count(timeline, now, retention);
    assert(timeline =~= expired_front(timeline, now, retention) + kept_back(
        timeline,
        now,
        retention,
    ));
    assert(expired_front(timeline, now, retention)[i] == timeline[i]);
}

/// Of a timeline in ascending order of creation, trimming leaves no expired
/// entry.
pub proof fn law_sorted_timelines_are_trimmed_fully(
    timeline: Seq<TinyPost>,
    now: u64,
    retention: u64,
    i: int,
)
    requires
        is_sorted_by(timeline, |entry: TinyPost| entry.created_at as int),
        0 <= i < kept_back(timeline, now, retention).len(),
    ensures
        !is_expired(kept_back(timeline, now, retention)[i], now, retention),
{
    lemma_expired_count(timeline, now, retention);
    let by_time = |entry: TinyPost| entry.created_at as int;
    let n = expired_count(timeline, now, retention) as int;
    assert(by_time(timeline[n]) <= by_time(timeline[n + i]));
    assert(kept_back(timeline, now, retention)[i] == timeline[n + i]);
}

/// No timeline of the store lists an entry that is expired at time `now`.
pub open spec fn is_free_of_expired(
    table: Map<i64, Seq<TinyPost>>,
    now: u64,
    retention: u64,
) -> bool {
    forall|user: i64, i: int|
        table.contains_key(user) && 0 <= i < table[user].len() ==> !is_expired(
            #[trigger] table[user][i],
            now,
            retention,
        )
}

proof fn lemma_sorted_then_trimmed(table: Map<i64, Seq<TinyPost>>, now: u64, retention: u64)
    ensures
        is_free_of_expired(trimmed_table(sorted_table(table), now, retention), now, retention),
{
    let after = trimmed_table(sorted_table(table), now, retention);
    assert forall|user: i64, i: int|
        after.contains_key(user) && 0 <= i < after[user].len() implies !is_expired(
        #[trigger] after[user][i],
        now,
        retention,
    ) by {
        assert(table.contains_key(user));
        lemma_stable_sorted(table[user], |entry: TinyPost| entry.created_at as int);
        law_sorted_timelines_are_trimmed_fully(sorted_timeline(table[user]), now, retention, i);
    }
}

/// Once the initial load has ended, no timeline lists anything older than the
/// retention period.
pub proof fn law_finalized_stores_hold_nothing_expired(
    s: StoreState,
    key: i64,
    now: u64,
    retention: u64,
)
    ensures
        is_free_of_expired(finalized(s, key, now, retention).original, now, retention),
        is_free_of_expired(finalized(s, key, now, retention).secondary, now, retention),
        is_free_of_expired(finalized(s, key, now, retention).video, now, retention),
{
    lemma_sorted_then_trimmed(s.original, now, retention);
    lemma_sorted_then_trimmed(s.secondary, now, retention);
    lemma_sorted_then_trimmed(s.video, now, retention);
}

/// Trimming leaves no timeline empty.
pub proof fn law_trimming_leaves_no_empty_timeline(
    table: Map<i64, Seq<TinyPost>>,
    now: u64,
    retention: u64,
    user: i64,
)
    requires
        trimmed_table(table, now, retention).contains_key(user),
    ensures
        trimmed_table(table, now, retention)[user].len() > 0,
{
}

proof fn lemma_trimmed_front_is_empty(timeline: Seq<TinyPost>, now: u64, retention: u64)
    ensures
        expired_count(kept_back(timeline, now, retention), now, retention) == 0,
        kept_back(kept_back(timeline, now, retention), now, retention) == kept_back(
            timeline,
            now,
            retention,
        ),
{
    lemma_expired_count(timeline, now, retention);
    let kept = kept_back(timeline, now, retention);
    assert(kept.skip(0) =~= kept);
}

proof fn lemma_trim_table_twice(table: Map<i64, Seq<TinyPost>>, now: u64, retention: u64, key: i64)
    ensures
        trimmed_table(trimmed_table(table, now, retention), now, retention) == trimmed_table(
            table,
            now,
            retention,
        ),
        expired_ids(
            trimmed_table(table, now, retention),
            trimmed_table(table, now, retention).dom(),
            now,
            retention,
        ) == Set::<i64>::empty(),
        ids_of(
            expired_front(timeline_of(trimmed_table(table, now, retention), key), now, retention),
        ) == Set::<i64>::empty(),
{
    let once = trimmed_table(table, now, retention);
    assert forall|user: i64| #[trigger] once.contains_key(user) implies expired_count(
        once[user],
        now,
        retention,
    ) == 0 && kept_back(once[user], now, retention) == once[user] by {
        lemma_trimmed_front_is_empty(table[user], now, retention);
    }
    assert(trimmed_table(once, now, retention) =~= once);
    assert(expired_ids(once, once.dom(), now, retention) =~= Set::empty()) by {
        assert forall|id: i64| !expired_ids(once, once.dom(), now, retention).contains(id) by {
            if expired_ids(once, once.dom(), now, retention).contains(id) {
                let user = choose|user: i64| #[trigger]
                    once.dom().contains(user) && ids_of(
                        expired_front(timeline_of(once, user), now, retention),
                    ).contains(id);
                assert(once.contains_key(user));
            }
        }
    }
    assert(ids_of(expired_front(timeline_of(once, key), now, retention)) =~= Set::empty());
}

/// Trimming again at the same time changes nothing.
pub proof fn law_trimming_is_idempotent(s: StoreState, key: i64, now: u64, retention: u64)
    ensures
        trimmed(trimmed(s, key, now, retention), key, now, retention) == trimmed(
            s,
            key,
            now,
            retention,
        ),
{
    let once = trimmed(s, key, now, retention);
    lemma_trim_table_twice(s.original, now, retention, key);
    lemma_trim_table_twice(s.secondary, now, retention, key);
    lemma_trim_table_twice(s.video, now, retention, key);
    assert(once.posts.remove_keys(Set::empty()) =~= once.posts);
    assert(once.deleted.difference(Set::empty()) =~= once.deleted);
    assert(trimmed(once, key, now, retention) =~= once);
}

/// Sorting keeps what every timeline lists, and puts it in ascending order of
/// creation.
pub proof fn law_sorting_orders_every_timeline(table: Map<i64, Seq<TinyPost>>, user: i64)
    requires
        table.contains_key(user),
    ensures
        sorted_table(table).dom() == table.dom(),
        sorted_table(table)[user].to_multiset() == table[user].to_multiset(),
        is_sorted_by(sorted_table(table)[user], |entry: TinyPost| entry.created_at as int),
{
    lemma_stable_sorted(table[user], |entry: TinyPost| entry.created_at as int);
    assert(sorted_table(table).dom() =~= table.dom());
}

} // verus!
