//! What inserting, withdrawing and trimming do to each table of the post store.

use vstd::prelude::*;

use crate::ordering::{
    is_sorted_by, lemma_stable_sorted, lemma_with_key_is_filter, with_key,
};
use crate::thunder::posts::{LightPost, TinyPost, TweetDeleteEvent};
use crate::thunder::store_model::{
    admitted, empty_store, expired_count, expired_front, expired_ids, finalized, ids_of, insert_one,
    inserted, is_expired, is_fresh, kept_back, listed_entries, mark_one, marked, sorted_store,
    sorted_timeline, sum_over, timeline_of, trimmed, trimmed_entries, trimmed_table, StoreState,
};
use crate::thunder::store_sums::lemma_sum_insert;

verus! {

/// An empty store holds nothing.
pub proof fn law_empty_stores_hold_nothing(id: i64)
    ensures
        !empty_store().posts.contains_key(id),
        !empty_store().original.contains_key(id),
        !empty_store().secondary.contains_key(id),
        !empty_store().video.contains_key(id),
        !empty_store().deleted.contains(id),
{
}

// Inserting.

/// A new post is stored as it is and put at the end of the timelines of its author: among
/// the original posts if it is neither a reply nor a retweet, else among the others. No
/// other timeline and no other post changes.
pub proof fn law_new_posts_are_listed_by_kind(s: StoreState, post: LightPost, user: i64, id: i64)
    requires
        !s.deleted.contains(post.post_id),
        !s.posts.contains_key(post.post_id),
    ensures
        ({
            let after = insert_one(s, post);
            let entry = TinyPost { post_id: post.post_id, created_at: post.created_at };
            let author = post.author_id;
            &&& after.posts.contains_key(post.post_id)
            &&& after.posts[post.post_id] == post
            &&& id != post.post_id ==> after.posts.contains_key(id) == s.posts.contains_key(id)
                && after.posts[id] == s.posts[id]
            &&& after.deleted == s.deleted
            &&& !post.is_reply && !post.is_retweet ==> {
                &&& after.original.contains_key(author)
                &&& after.original[author] == timeline_of(s.original, author).push(entry)
                &&& after.secondary == s.secondary
            }
            &&& post.is_reply || post.is_retweet ==> {
                &&& after.secondary.contains_key(author)
                &&& after.secondary[author] == timeline_of(s.secondary, author).push(entry)
                &&& after.original == s.original
            }
            &&& user != author ==> {
                &&& timeline_of(after.original, user) == timeline_of(s.original, user)
                &&& timeline_of(after.secondary, user) == timeline_of(s.secondary, user)
                &&& timeline_of(after.video, user) == timeline_of(s.video, user)
            }
        }),
{
}

/// A new post that has a video and is no reply is put at the end of its author's videos,
/// retweet or not and whatever else is stored.
pub proof fn law_posts_with_video_are_listed_as_videos(s: StoreState, post: LightPost)
    requires
        !s.deleted.contains(post.post_id),
        !s.posts.contains_key(post.post_id),
        post.has_video,
        !post.is_reply,
    ensures
        insert_one(s, post).video.contains_key(post.author_id),
        insert_one(s, post).video[post.author_id] == timeline_of(s.video, post.author_id).push(
            TinyPost { post_id: post.post_id, created_at: post.created_at },
        ),
{
}

/// A new post without a video is listed as a video exactly if it is a retweet, no reply,
/// of a stored post with a video that is neither a reply nor a retweet. A reply is never
/// listed as one.
pub proof fn law_when_posts_without_video_are_listed_as_videos(s: StoreState, post: LightPost)
    requires
        !s.deleted.contains(post.post_id),
        !s.posts.contains_key(post.post_id),
    ensures
        post.is_reply ==> insert_one(s, post).video == s.video,
        !post.has_video && !post.is_retweet ==> insert_one(s, post).video == s.video,
        !post.has_video && post.source_post_id is None ==> insert_one(s, post).video == s.video,
        !post.has_video && (post.source_post_id matches Some(source) && !(s.posts.contains_key(
            source,
        ) && s.posts[source].has_video && !s.posts[source].is_reply && !s.posts[source].is_retweet))
            ==> insert_one(s, post).video == s.video,
        !post.is_reply && post.is_retweet && (post.source_post_id matches Some(source)
            && s.posts.contains_key(source) && s.posts[source].has_video
            && !s.posts[source].is_reply && !s.posts[source].is_retweet) ==> insert_one(
            s,
            post,
        ).video.contains_key(post.author_id) && insert_one(s, post).video[post.author_id]
            == timeline_of(s.video, post.author_id).push(
            TinyPost { post_id: post.post_id, created_at: post.created_at },
        ),
{
    if let Some(source) = post.source_post_id {
        if source == post.post_id {
            assert(!s.posts.contains_key(source));
        }
    }
}

/// A withdrawn post changes nothing; of one that is stored already only the data is
/// replaced.
pub proof fn law_withdrawn_and_known_posts_are_not_listed(s: StoreState, post: LightPost, id: i64)
    ensures
        s.deleted.contains(post.post_id) ==> insert_one(s, post) == s,
        !s.deleted.contains(post.post_id) && s.posts.contains_key(post.post_id) ==> {
            let after = insert_one(s, post);
            &&& after.posts.contains_key(post.post_id)
            &&& after.posts[post.post_id] == post
            &&& id != post.post_id ==> after.posts.contains_key(id) == s.posts.contains_key(id)
                && after.posts[id] == s.posts[id]
            &&& after.original == s.original
            &&& after.secondary == s.secondary
            &&& after.video == s.video
            &&& after.deleted == s.deleted
        },
{
}

/// Several posts go in one after the other.
pub proof fn law_posts_go_in_one_after_the_other(
    s: StoreState,
    posts: Seq<LightPost>,
    more: Seq<LightPost>,
    post: LightPost,
)
    ensures
        inserted(s, Seq::empty()) == s,
        inserted(s, seq![post]) == insert_one(s, post),
        inserted(s, posts + more) == inserted(inserted(s, posts), more),
{
    let one = seq![post];
    assert(one.drop_last() =~= Seq::<LightPost>::empty());
    reveal_with_fuel(inserted, 2);
    lemma_inserted_joined(s, posts, more);
}

proof fn lemma_inserted_joined(s: StoreState, posts: Seq<LightPost>, more: Seq<LightPost>)
    ensures
        inserted(s, posts + more) == inserted(inserted(s, posts), more),
    decreases more.len(),
{
    if more.len() == 0 {
        assert(posts + more =~= posts);
    } else {
        lemma_inserted_joined(s, posts, more.drop_last());
        assert((posts + more).drop_last() =~= posts + more.drop_last());
        assert((posts + more).last() == more.last());
    }
}

/// An insertion takes exactly the posts that were created before it and not longer before
/// than posts are kept, each as often as it is there, the oldest first; those of one moment
/// keep their order.
pub proof fn law_posts_of_the_retention_period_get_in(
    posts: Seq<LightPost>,
    now: u64,
    retention: u64,
    post: LightPost,
    moment: i64,
)
    ensures
        ({
            let taken = admitted(posts, now, retention);
            &&& taken.contains(post) <==> posts.contains(post) && post.created_at < now
                && post.created_at >= now - retention
            &&& taken.to_multiset() == posts.filter(
                |p: LightPost| p.created_at < now && p.created_at >= now - retention,
            ).to_multiset()
            &&& forall|i: int, j: int|
                0 <= i <= j < taken.len() ==> (#[trigger] taken[i]).created_at <= (
                #[trigger] taken[j]).created_at
            &&& taken.filter(|p: LightPost| p.created_at == moment) == posts.filter(
                |p: LightPost| p.created_at < now && p.created_at >= now - retention,
            ).filter(|p: LightPost| p.created_at == moment)
        }),
{
    broadcast use vstd::seq_lib::group_to_multiset_ensures;

    let fresh = |p: LightPost| is_fresh(p, now, retention);
    let recent = |p: LightPost| p.created_at < now && p.created_at >= now - retention;
    let key = |p: LightPost| p.created_at as int;
    assert(fresh =~= recent);
    let taken = admitted(posts, now, retention);
    let kept = posts.filter(recent);
    lemma_stable_sorted(posts.filter(fresh), key);
    assert(taken.to_multiset() == kept.to_multiset());
    let of_the_moment = |p: LightPost| p.created_at == moment;
    assert(with_key(taken, key, moment as int) == with_key(kept, key, moment as int));
    lemma_with_key_is_filter(taken, key, moment as int, of_the_moment);
    lemma_with_key_is_filter(kept, key, moment as int, of_the_moment);
    assert(taken.contains(post) <==> kept.contains(post)) by {
        assert(taken.to_multiset().count(post) == kept.to_multiset().count(post));
    }
    if posts.contains(post) && recent(post) {
        posts.lemma_filter_contains(recent, posts.index_of(post));
    }
    if kept.contains(post) {
        posts.lemma_filter_pred(recent, kept.index_of(post));
        posts.lemma_filter_contains_rev(recent, post);
    }
    assert forall|i: int, j: int| 0 <= i <= j < taken.len() implies (
    #[trigger] taken[i]).created_at <= (#[trigger] taken[j]).created_at by {
        assert(is_sorted_by(taken, key));
        assert(key(taken[i]) <= key(taken[j]));
    }
}

// Withdrawing.

/// A withdrawal takes the post's data out, leaves a mark, and puts the time of the
/// withdrawal at the end of the timeline that is set aside for that. Nothing else changes.
pub proof fn law_withdrawals_leave_a_mark(
    s: StoreState,
    event: TweetDeleteEvent,
    key: i64,
    id: i64,
    user: i64,
)
    ensures
        ({
            let after = mark_one(s, event, key);
            &&& !after.posts.contains_key(event.post_id)
            &&& after.deleted.contains(event.post_id)
            &&& id != event.post_id ==> {
                &&& after.posts.contains_key(id) == s.posts.contains_key(id)
                &&& after.posts[id] == s.posts[id]
                &&& after.deleted.contains(id) == s.deleted.contains(id)
            }
            &&& after.original.contains_key(key)
            &&& after.original[key] == timeline_of(s.original, key).push(
                TinyPost { post_id: event.post_id, created_at: event.deleted_at },
            )
            &&& user != key ==> after.original.contains_key(user) == s.original.contains_key(user)
                && timeline_of(after.original, user) == timeline_of(s.original, user)
            &&& after.secondary == s.secondary
            &&& after.video == s.video
        }),
{
}

/// Several withdrawals are taken in one after the other.
pub proof fn law_withdrawals_are_taken_one_after_the_other(
    s: StoreState,
    events: Seq<TweetDeleteEvent>,
    more: Seq<TweetDeleteEvent>,
    event: TweetDeleteEvent,
    key: i64,
)
    ensures
        marked(s, Seq::empty(), key) == s,
        marked(s, seq![event], key) == mark_one(s, event, key),
        marked(s, events + more, key) == marked(marked(s, events, key), more, key),
{
    let one = seq![event];
    assert(one.drop_last() =~= Seq::<TweetDeleteEvent>::empty());
    reveal_with_fuel(marked, 2);
    lemma_marked_joined(s, events, more, key);
}

proof fn lemma_marked_joined(
    s: StoreState,
    events: Seq<TweetDeleteEvent>,
    more: Seq<TweetDeleteEvent>,
    key: i64,
)
    ensures
        marked(s, events + more, key) == marked(marked(s, events, key), more, key),
    decreases more.len(),
{
    if more.len() == 0 {
        assert(events + more =~= events);
    } else {
        lemma_marked_joined(s, events, more.drop_last(), key);
        assert((events + more).drop_last() =~= events + more.drop_last());
        assert((events + more).last() == more.last());
    }
}

/// The timeline of a user: what the table has for the user, or nothing.
pub proof fn law_missing_timelines_are_empty(table: Map<i64, Seq<TinyPost>>, user: i64)
    ensures
        table.contains_key(user) ==> timeline_of(table, user) == table[user],
        !table.contains_key(user) ==> timeline_of(table, user).len() == 0,
{
}

// Trimming.

/// An entry is expired exactly if more seconds have passed since it was created than
/// posts are kept.
pub proof fn law_entries_expire_after_the_retention_period(
    entry: TinyPost,
    now: u64,
    retention: u64,
)
    ensures
        is_expired(entry, now, retention) <==> entry.created_at + retention < now,
{
}

proof fn lemma_expired_front(timeline: Seq<TinyPost>, now: u64, retention: u64)
    ensures
        expired_count(timeline, now, retention) <= timeline.len(),
        forall|n: int|
            0 <= n < expired_count(timeline, now, retention) ==> (#[trigger] timeline[n]).created_at
                + retention < now,
        expired_count(timeline, now, retention) < timeline.len() ==> timeline[expired_count(
            timeline,
            now,
            retention,
        ) as int].created_at + retention >= now,
    decreases timeline.len(),
{
    if timeline.len() > 0 && is_expired(timeline[0], now, retention) {
        let rest = timeline.drop_first();
        lemma_expired_front(rest, now, retention);
        assert forall|n: int| 0 <= n < expired_count(timeline, now, retention) implies (
        #[trigger] timeline[n]).created_at + retention < now by {
            if n > 0 {
                assert(timeline[n] == rest[n - 1]);
            }
        }
    }
}

/// Trimming takes the expired entries at the front of a timeline out, up to the first that
/// is not expired, and leaves the rest as it is; a timeline of which nothing is left goes.
pub proof fn law_trimming_takes_expired_fronts(
    table: Map<i64, Seq<TinyPost>>,
    user: i64,
    now: u64,
    retention: u64,
) -> (gone: int)
    ensures
        ({
            let before = timeline_of(table, user);
            let after = trimmed_table(table, now, retention);
            &&& 0 <= gone <= before.len()
            &&& forall|n: int|
                0 <= n < gone ==> (#[trigger] before[n]).created_at + retention < now
            &&& gone < before.len() ==> before[gone].created_at + retention >= now
            &&& timeline_of(after, user) == before.skip(gone)
            &&& after.contains_key(user) <==> gone < before.len()
        }),
{
    let before = timeline_of(table, user);
    lemma_expired_front(before, now, retention);
    let gone = expired_count(before, now, retention) as int;
    let after = trimmed_table(table, now, retention);
    if table.contains_key(user) {
        assert(kept_back(table[user], now, retention) == before.skip(gone));
        if gone == before.len() {
            assert(before.skip(gone) =~= Seq::<TinyPost>::empty());
        }
    } else {
        assert(before.skip(gone) =~= Seq::<TinyPost>::empty());
    }
    gone
}

proof fn lemma_listed_and_expired(
    table: Map<i64, Seq<TinyPost>>,
    user: i64,
    place: int,
    now: u64,
    retention: u64,
)
    requires
        table.contains_key(user),
        0 <= place < table[user].len(),
        forall|n: int|
            0 <= n <= place ==> (#[trigger] table[user][n]).created_at + retention < now,
    ensures
        expired_ids(table, table.dom(), now, retention).contains(table[user][place].post_id),
        ids_of(expired_front(timeline_of(table, user), now, retention)).contains(
            table[user][place].post_id,
        ),
{
    let timeline = table[user];
    lemma_expired_front(timeline, now, retention);
    let count = expired_count(timeline, now, retention) as int;
    if count <= place {
        assert(timeline[count].created_at + retention < now);
    }
    let front = expired_front(timeline, now, retention);
    assert(front[place] == timeline[place]);
    assert(ids_of(front).contains(timeline[place].post_id));
    assert(table.dom().contains(user));
}

proof fn lemma_not_expired(
    table: Map<i64, Seq<TinyPost>>,
    id: i64,
    now: u64,
    retention: u64,
)
    requires
        forall|user: i64, n: int|
            #![trigger timeline_of(table, user)[n]]
            0 <= n < timeline_of(table, user).len() && timeline_of(table, user)[n].post_id == id
                ==> exists|m: int|
                0 <= m <= n && (#[trigger] timeline_of(table, user)[m]).created_at + retention >= now,
    ensures
        !expired_ids(table, table.dom(), now, retention).contains(id),
        forall|user: i64|
            !(#[trigger] ids_of(
                expired_front(timeline_of(table, user), now, retention),
            ).contains(id)),
{
    assert forall|user: i64|
        !(#[trigger] ids_of(
            expired_front(timeline_of(table, user), now, retention),
        ).contains(id)) by {
        let timeline = timeline_of(table, user);
        lemma_expired_front(timeline, now, retention);
        let front = expired_front(timeline, now, retention);
        if ids_of(front).contains(id) {
            let n = choose|n: int| 0 <= n < front.len() && (#[trigger] front[n]).post_id == id;
            assert(front[n] == timeline[n]);
            assert(timeline_of(table, user)[n].post_id == id);
            let m = choose|m: int|
                0 <= m <= n && (#[trigger] timeline_of(table, user)[m]).created_at + retention
                    >= now;
            assert(timeline[m].created_at + retention < now);
        }
    }
}

/// Trimming forgets the post of an entry that goes, leaves a post alone none of whose
/// entries has expired, and changes no post that stays.
pub proof fn law_trimming_forgets_expired_posts(
    s: StoreState,
    key: i64,
    now: u64,
    retention: u64,
    user: i64,
    place: int,
    id: i64,
)
    ensures
        ({
            let after = trimmed(s, key, now, retention);
            &&& after.posts.contains_key(id) ==> s.posts.contains_key(id) && after.posts[id]
                == s.posts[id]
            &&& s.original.contains_key(user) && 0 <= place < s.original[user].len() && (forall|
                n: int,
            |
                0 <= n <= place ==> (#[trigger] s.original[user][n]).created_at + retention < now)
                ==> !after.posts.contains_key(s.original[user][place].post_id)
            &&& s.secondary.contains_key(user) && 0 <= place < s.secondary[user].len() && (forall|
                n: int,
            |
                0 <= n <= place ==> (#[trigger] s.secondary[user][n]).created_at + retention < now)
                ==> !after.posts.contains_key(s.secondary[user][place].post_id)
            &&& s.video.contains_key(user) && 0 <= place < s.video[user].len() && (forall|n: int|
                0 <= n <= place ==> (#[trigger] s.video[user][n]).created_at + retention < now)
                ==> !after.posts.contains_key(s.video[user][place].post_id)
        }),
{
    let after = trimmed(s, key, now, retention);
    if s.original.contains_key(user) && 0 <= place < s.original[user].len() && (forall|n: int|
        0 <= n <= place ==> (#[trigger] s.original[user][n]).created_at + retention < now) {
        lemma_listed_and_expired(s.original, user, place, now, retention);
    }
    if s.secondary.contains_key(user) && 0 <= place < s.secondary[user].len() && (forall|n: int|
        0 <= n <= place ==> (#[trigger] s.secondary[user][n]).created_at + retention < now) {
        lemma_listed_and_expired(s.secondary, user, place, now, retention);
    }
    if s.video.contains_key(user) && 0 <= place < s.video[user].len() && (forall|n: int|
        0 <= n <= place ==> (#[trigger] s.video[user][n]).created_at + retention < now) {
        lemma_listed_and_expired(s.video, user, place, now, retention);
    }
}

/// A stored post outlives a trimming if each of its entries stands behind one that has not
/// expired, or has not expired itself; and so does a mark.
pub proof fn law_trimming_keeps_what_has_not_expired(
    s: StoreState,
    key: i64,
    now: u64,
    retention: u64,
    id: i64,
)
    requires
        forall|user: i64, n: int|
            #![trigger timeline_of(s.original, user)[n]]
            0 <= n < timeline_of(s.original, user).len() && timeline_of(s.original, user)[n].post_id
                == id ==> exists|m: int|
                0 <= m <= n && (#[trigger] timeline_of(s.original, user)[m]).created_at + retention >= now,
        forall|user: i64, n: int|
            #![trigger timeline_of(s.secondary, user)[n]]
            0 <= n < timeline_of(s.secondary, user).len() && timeline_of(
                s.secondary,
                user,
            )[n].post_id == id ==> exists|m: int|
                0 <= m <= n && (#[trigger] timeline_of(s.secondary, user)[m]).created_at + retention >= now,
        forall|user: i64, n: int|
            #![trigger timeline_of(s.video, user)[n]]
            0 <= n < timeline_of(s.video, user).len() && timeline_of(s.video, user)[n].post_id == id
                ==> exists|m: int|
                0 <= m <= n && (#[trigger] timeline_of(s.video, user)[m]).created_at + retention >= now,
    ensures
        s.posts.contains_key(id) ==> trimmed(s, key, now, retention).posts.contains_key(id)
            && trimmed(s, key, now, retention).posts[id] == s.posts[id],
        s.deleted.contains(id) ==> trimmed(s, key, now, retention).deleted.contains(id),
{
    lemma_not_expired(s.original, id, now, retention);
    lemma_not_expired(s.secondary, id, now, retention);
    lemma_not_expired(s.video, id, now, retention);
    assert(!ids_of(expired_front(timeline_of(s.original, key), now, retention)).contains(id));
    assert(!ids_of(expired_front(timeline_of(s.secondary, key), now, retention)).contains(id));
    assert(!ids_of(expired_front(timeline_of(s.video, key), now, retention)).contains(id));
}

/// A mark goes once its withdrawal, and all that stands before it in the timeline of
/// withdrawals, has expired; what other timelines list has no part in that.
pub proof fn law_marks_expire_with_their_withdrawal(
    s: StoreState,
    key: i64,
    now: u64,
    retention: u64,
    place: int,
    id: i64,
)
    requires
        !s.secondary.contains_key(key),
        !s.video.contains_key(key),
    ensures
        trimmed(s, key, now, retention).deleted.contains(id) ==> s.deleted.contains(id),
        s.original.contains_key(key) && 0 <= place < s.original[key].len() && (forall|n: int|
            0 <= n <= place ==> (#[trigger] s.original[key][n]).created_at + retention < now)
            ==> !trimmed(s, key, now, retention).deleted.contains(s.original[key][place].post_id),
        s.deleted.contains(id) && (forall|n: int|
            0 <= n < timeline_of(s.original, key).len() && (#[trigger] timeline_of(
                s.original,
                key,
            )[n]).post_id == id ==> timeline_of(s.original, key)[n].created_at + retention >= now)
            ==> trimmed(s, key, now, retention).deleted.contains(id),
{
    if s.original.contains_key(key) && 0 <= place < s.original[key].len() && (forall|n: int|
        0 <= n <= place ==> (#[trigger] s.original[key][n]).created_at + retention < now) {
        lemma_listed_and_expired(s.original, key, place, now, retention);
    }
    let none = Seq::<TinyPost>::empty();
    assert(expired_front(none, now, retention) =~= none);
    assert(!ids_of(none).contains(id));
    let timeline = timeline_of(s.original, key);
    lemma_expired_front(timeline, now, retention);
    let front = expired_front(timeline, now, retention);
    if ids_of(front).contains(id) {
        let n = choose|n: int| 0 <= n < front.len() && (#[trigger] front[n]).post_id == id;
        assert(front[n] == timeline[n]);
        assert(timeline_of(s.original, key)[n].post_id == id);
        assert(timeline_of(s.original, key)[n].created_at + retention < now);
    }
}

/// A mark goes in whichever table the timeline of withdrawals lists it among the expired
/// entries at the front, and stays where none of the tables does.
pub proof fn law_marks_expire_in_every_table(
    s: StoreState,
    key: i64,
    now: u64,
    retention: u64,
    place: int,
    id: i64,
)
    ensures
        ({
            let after = trimmed(s, key, now, retention).deleted;
            &&& s.secondary.contains_key(key) && 0 <= place < s.secondary[key].len() && (forall|
                n: int,
            |
                0 <= n <= place ==> (#[trigger] s.secondary[key][n]).created_at + retention < now)
                ==> !after.contains(s.secondary[key][place].post_id)
            &&& s.video.contains_key(key) && 0 <= place < s.video[key].len() && (forall|n: int|
                0 <= n <= place ==> (#[trigger] s.video[key][n]).created_at + retention < now)
                ==> !after.contains(s.video[key][place].post_id)
            &&& s.original.contains_key(key) && 0 <= place < s.original[key].len() && (forall|
                n: int,
            |
                0 <= n <= place ==> (#[trigger] s.original[key][n]).created_at + retention < now)
                ==> !after.contains(s.original[key][place].post_id)
            &&& s.deleted.contains(id) && !after.contains(id) ==> {
                ||| exists|n: int|
                    0 <= n < timeline_of(s.original, key).len() && (#[trigger] timeline_of(
                        s.original,
                        key,
                    )[n]).post_id == id && timeline_of(s.original, key)[n].created_at + retention
                        < now
                ||| exists|n: int|
                    0 <= n < timeline_of(s.secondary, key).len() && (#[trigger] timeline_of(
                        s.secondary,
                        key,
                    )[n]).post_id == id && timeline_of(s.secondary, key)[n].created_at + retention
                        < now
                ||| exists|n: int|
                    0 <= n < timeline_of(s.video, key).len() && (#[trigger] timeline_of(
                        s.video,
                        key,
                    )[n]).post_id == id && timeline_of(s.video, key)[n].created_at + retention < now
            }
        }),
{
    if s.original.contains_key(key) && 0 <= place < s.original[key].len() && (forall|n: int|
        0 <= n <= place ==> (#[trigger] s.original[key][n]).created_at + retention < now) {
        lemma_listed_and_expired(s.original, key, place, now, retention);
    }
    if s.secondary.contains_key(key) && 0 <= place < s.secondary[key].len() && (forall|n: int|
        0 <= n <= place ==> (#[trigger] s.secondary[key][n]).created_at + retention < now) {
        lemma_listed_and_expired(s.secondary, key, place, now, retention);
    }
    if s.video.contains_key(key) && 0 <= place < s.video[key].len() && (forall|n: int|
        0 <= n <= place ==> (#[trigger] s.video[key][n]).created_at + retention < now) {
        lemma_listed_and_expired(s.video, key, place, now, retention);
    }
    lemma_expired_entry(timeline_of(s.original, key), now, retention, id);
    lemma_expired_entry(timeline_of(s.secondary, key), now, retention, id);
    lemma_expired_entry(timeline_of(s.video, key), now, retention, id);
}

proof fn lemma_expired_entry(timeline: Seq<TinyPost>, now: u64, retention: u64, id: i64)
    ensures
        ids_of(expired_front(timeline, now, retention)).contains(id) ==> exists|n: int|
            0 <= n < timeline.len() && (#[trigger] timeline[n]).post_id == id
                && timeline[n].created_at + retention < now,
{
    lemma_expired_front(timeline, now, retention);
    let front = expired_front(timeline, now, retention);
    if ids_of(front).contains(id) {
        let n = choose|n: int| 0 <= n < front.len() && (#[trigger] front[n]).post_id == id;
        assert(front[n] == timeline[n]);
    }
}

/// Entries of one moment keep their order when a timeline is sorted.
pub proof fn law_sorting_keeps_the_order_of_a_moment(timeline: Seq<TinyPost>, moment: i64)
    ensures
        sorted_timeline(timeline).filter(|entry: TinyPost| entry.created_at == moment)
            == timeline.filter(|entry: TinyPost| entry.created_at == moment),
{
    let key = |entry: TinyPost| entry.created_at as int;
    let of_the_moment = |entry: TinyPost| entry.created_at == moment;
    lemma_stable_sorted(timeline, key);
    let sorted = sorted_timeline(timeline);
    assert(with_key(sorted, key, moment as int) == with_key(timeline, key, moment as int));
    lemma_with_key_is_filter(sorted, key, moment as int, of_the_moment);
    lemma_with_key_is_filter(timeline, key, moment as int, of_the_moment);
}

/// Each table is trimmed for itself.
pub proof fn law_each_table_is_trimmed(s: StoreState, key: i64, now: u64, retention: u64)
    ensures
        trimmed(s, key, now, retention).original == trimmed_table(s.original, now, retention),
        trimmed(s, key, now, retention).secondary == trimmed_table(s.secondary, now, retention),
        trimmed(s, key, now, retention).video == trimmed_table(s.video, now, retention),
{
}

/// The number of entries that a trimming reports is the number that went.
pub proof fn law_trimming_counts_what_goes(
    table: Map<i64, Seq<TinyPost>>,
    now: u64,
    retention: u64,
)
    requires
        table.dom().finite(),
    ensures
        trimmed_table(table, now, retention).dom().finite(),
        listed_entries(table) == trimmed_entries(table, now, retention) + listed_entries(
            trimmed_table(table, now, retention),
        ),
{
    let after = trimmed_table(table, now, retention);
    let length = |user: i64| timeline_of(table, user).len();
    let gone = |user: i64| expired_count(timeline_of(table, user), now, retention);
    let left = |user: i64| timeline_of(after, user).len();
    assert(after.dom().subset_of(table.dom()));
    vstd::set_lib::lemma_set_subset_finite(table.dom(), after.dom());
    assert forall|user: i64| #[trigger] table.dom().contains(user) implies length(user) == gone(user)
        + left(user) by {
        let cut = law_trimming_takes_expired_fronts(table, user, now, retention);
        lemma_expired_front(timeline_of(table, user), now, retention);
        let count = gone(user) as int;
        assert(timeline_of(after, user) =~= timeline_of(table, user).skip(count)) by {
            if after.contains_key(user) {
            } else {
                assert(kept_back(table[user], now, retention).len() == 0);
                assert(timeline_of(table, user).skip(count).len() == 0);
            }
        }
    }
    assert forall|user: i64| !after.dom().contains(user) implies #[trigger] left(user) == 0 by {}
    lemma_sum_split(table.dom(), after.dom(), length, gone, left);
}

proof fn lemma_sum_split(
    users: Set<i64>,
    some: Set<i64>,
    whole: spec_fn(i64) -> nat,
    one: spec_fn(i64) -> nat,
    other: spec_fn(i64) -> nat,
)
    requires
        users.finite(),
        some.subset_of(users),
        forall|user: i64| #[trigger] users.contains(user) ==> whole(user) == one(user) + other(user),
        forall|user: i64| !some.contains(user) ==> #[trigger] other(user) == 0,
    ensures
        sum_over(users, whole) == sum_over(users, one) + sum_over(some, other),
    decreases users.len(),
{
    vstd::set_lib::lemma_set_subset_finite(users, some);
    if users.len() == 0 {
        assert(some =~= Set::<i64>::empty());
    } else {
        let user = users.choose();
        let rest = users.remove(user);
        let some_rest = some.remove(user);
        assert(users.contains(user));
        let trimmed_other = |u: i64| if u == user { 0nat } else { other(u) };
        assert forall|u: i64| #[trigger] rest.contains(u) implies whole(u) == one(u) + trimmed_other(
            u,
        ) by {
            assert(users.contains(u));
        }
        assert forall|u: i64| !some_rest.contains(u) implies #[trigger] trimmed_other(u) == 0 by {
            if u != user {
                assert(!some.contains(u));
                assert(other(u) == 0);
            }
        }
        lemma_sum_split(rest, some_rest, whole, one, trimmed_other);
        lemma_sum_same(some_rest, trimmed_other, other);
        lemma_sum_insert(rest, user, whole);
        lemma_sum_insert(rest, user, one);
        assert(rest.insert(user) =~= users);
        if some.contains(user) {
            lemma_sum_insert(some_rest, user, other);
            assert(some_rest.insert(user) =~= some);
        } else {
            assert(some_rest =~= some);
            assert(other(user) == 0);
        }
    }
}

proof fn lemma_sum_same(users: Set<i64>, one: spec_fn(i64) -> nat, other: spec_fn(i64) -> nat)
    requires
        users.finite(),
        forall|user: i64| #[trigger] users.contains(user) ==> one(user) == other(user),
    ensures
        sum_over(users, one) == sum_over(users, other),
    decreases users.len(),
{
    if users.len() > 0 {
        let user = users.choose();
        assert(users.contains(user));
        lemma_sum_same(users.remove(user), one, other);
    }
}

/// The number of entries that a table lists: nothing for an empty table, and a new user's
/// timeline adds its length.
pub proof fn law_entries_are_counted(
    table: Map<i64, Seq<TinyPost>>,
    user: i64,
    timeline: Seq<TinyPost>,
)
    requires
        table.dom().finite(),
        !table.contains_key(user),
    ensures
        listed_entries(Map::<i64, Seq<TinyPost>>::empty()) == 0,
        listed_entries(table.insert(user, timeline)) == listed_entries(table) + timeline.len(),
{
    let after = table.insert(user, timeline);
    let before_length = |u: i64| timeline_of(table, u).len();
    let after_length = |u: i64| timeline_of(after, u).len();
    assert(after.dom() =~= table.dom().insert(user));
    lemma_sum_insert(table.dom(), user, after_length);
    lemma_sum_same(table.dom(), before_length, after_length);
    assert(Map::<i64, Seq<TinyPost>>::empty().dom() =~= Set::<i64>::empty());
}

// Ending the initial load.

/// When the initial load ends every timeline is put in the order of creation, then the
/// expired entries go, and no post stays that is marked as withdrawn; a post that is not
/// marked is kept if the trimming keeps it.
pub proof fn law_finalizing_sorts_trims_and_withdraws(
    s: StoreState,
    key: i64,
    now: u64,
    retention: u64,
    id: i64,
    user: i64,
)
    ensures
        ({
            let after = finalized(s, key, now, retention);
            let between = trimmed(sorted_store(s), key, now, retention);
            &&& after.deleted.contains(id) ==> !after.posts.contains_key(id)
            &&& !after.deleted.contains(id) ==> after.posts.contains_key(id)
                == between.posts.contains_key(id)
            &&& after.posts.contains_key(id) ==> after.posts[id] == s.posts[id]
            &&& after.deleted == between.deleted
            &&& after.original == between.original
            &&& after.secondary == between.secondary
            &&& after.video == between.video
            &&& sorted_store(s).posts == s.posts
            &&& sorted_store(s).deleted == s.deleted
            &&& timeline_of(sorted_store(s).original, user).to_multiset() == timeline_of(
                s.original,
                user,
            ).to_multiset()
            &&& timeline_of(sorted_store(s).secondary, user).to_multiset() == timeline_of(
                s.secondary,
                user,
            ).to_multiset()
            &&& timeline_of(sorted_store(s).video, user).to_multiset() == timeline_of(
                s.video,
                user,
            ).to_multiset()
            &&& forall|i: int, j: int|
                0 <= i <= j < timeline_of(sorted_store(s).original, user).len() ==> (
                #[trigger] timeline_of(sorted_store(s).original, user)[i]).created_at <= (
                #[trigger] timeline_of(sorted_store(s).original, user)[j]).created_at
            &&& forall|i: int, j: int|
                0 <= i <= j < timeline_of(sorted_store(s).secondary, user).len() ==> (
                #[trigger] timeline_of(sorted_store(s).secondary, user)[i]).created_at <= (
                #[trigger] timeline_of(sorted_store(s).secondary, user)[j]).created_at
            &&& forall|i: int, j: int|
                0 <= i <= j < timeline_of(sorted_store(s).video, user).len() ==> (
                #[trigger] timeline_of(sorted_store(s).video, user)[i]).created_at <= (
                #[trigger] timeline_of(sorted_store(s).video, user)[j]).created_at
        }),
{
    lemma_sorted_timeline(timeline_of(s.original, user));
    lemma_sorted_timeline(timeline_of(s.secondary, user));
    lemma_sorted_timeline(timeline_of(s.video, user));
    assert(timeline_of(sorted_store(s).original, user) == sorted_timeline(
        timeline_of(s.original, user),
    ));
    assert(timeline_of(sorted_store(s).secondary, user) == sorted_timeline(
        timeline_of(s.secondary, user),
    ));
    assert(timeline_of(sorted_store(s).video, user) == sorted_timeline(timeline_of(s.video, user)));
}

proof fn lemma_sorted_timeline(timeline: Seq<TinyPost>)
    ensures
        sorted_timeline(timeline).to_multiset() == timeline.to_multiset(),
        timeline.len() == 0 ==> sorted_timeline(timeline) == timeline,
        forall|i: int, j: int|
            0 <= i <= j < sorted_timeline(timeline).len() ==> (#[trigger] sorted_timeline(
                timeline,
            )[i]).created_at <= (#[trigger] sorted_timeline(timeline)[j]).created_at,
{
    let key = |entry: TinyPost| entry.created_at as int;
    lemma_stable_sorted(timeline, key);
    let sorted = sorted_timeline(timeline);
    assert forall|i: int, j: int| 0 <= i <= j < sorted.len() implies (
    #[trigger] sorted[i]).created_at <= (#[trigger] sorted[j]).created_at by {
        assert(is_sorted_by(sorted, key));
        assert(key(sorted[i]) <= key(sorted[j]));
    }
    if timeline.len() == 0 {
        assert(sorted =~= timeline);
    }
}

} // verus!
