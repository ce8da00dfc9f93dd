//! Which posts a query gets, in terms of what is stored and of who reads.

use vstd::prelude::*;

use crate::seqs::first;
use crate::thunder::post_store::{saturated, wanted_capacity, PostStore, UsersRead};
use crate::thunder::posts::{LightPost, TinyPost};
use crate::thunder::store_laws::law_listed_posts_are_served;
use crate::thunder::store_model::{
    is_answer, is_served, listed_by, scanned, served, served_all, timeline_of, Query, StoreState,
};

verus! {

// Which posts pass.

/// An entry whose post is not stored, was withdrawn, or repeats a post of the reader
/// passes no query.
pub proof fn law_lost_posts_and_own_retweets_do_not_pass(
    s: StoreState,
    entry: TinyPost,
    query: Query,
)
    ensures
        !s.posts.contains_key(entry.post_id) ==> !is_served(s, entry, query),
        s.deleted.contains(s.posts[entry.post_id].post_id) ==> !is_served(s, entry, query),
        s.posts[entry.post_id].is_retweet && s.posts[entry.post_id].source_user_id == Some(
            query.requester,
        ) ==> !is_served(s, entry, query),
{
}

/// A stored post that was not withdrawn, repeats no post of the reader and answers no
/// post passes every query. To a reader who follows nobody replies pass too.
pub proof fn law_posts_that_answer_nothing_pass(s: StoreState, entry: TinyPost, query: Query)
    requires
        s.posts.contains_key(entry.post_id),
        !s.deleted.contains(s.posts[entry.post_id].post_id),
        !s.posts[entry.post_id].is_retweet || s.posts[entry.post_id].source_user_id != Some(
            query.requester,
        ),
        s.posts[entry.post_id].in_reply_to_post_id is None || query.following == Set::<
            i64,
        >::empty(),
    ensures
        is_served(s, entry, query),
{
}

/// A reply to a stored post that is neither a reply nor a retweet passes every query,
/// whomever the reader follows, whatever conversation the reply belongs to and whomever
/// it answers.
pub proof fn law_replies_to_originals_pass(
    s: StoreState,
    entry: TinyPost,
    query: Query,
    parent: i64,
)
    requires
        s.posts.contains_key(entry.post_id),
        !s.deleted.contains(s.posts[entry.post_id].post_id),
        !s.posts[entry.post_id].is_retweet || s.posts[entry.post_id].source_user_id != Some(
            query.requester,
        ),
        s.posts[entry.post_id].in_reply_to_post_id == Some(parent),
        s.posts.contains_key(parent),
        !s.posts[parent].is_reply,
        !s.posts[parent].is_retweet,
    ensures
        is_served(s, entry, query),
{
}

/// A listed reply to a stored original post is handed out by every query that does not
/// exclude it and reads the whole timeline.
pub proof fn law_replies_to_originals_are_served(
    s: StoreState,
    timeline: Seq<TinyPost>,
    entry: TinyPost,
    query: Query,
    parent: i64,
)
    requires
        timeline.contains(entry),
        !query.exclude.contains(entry.post_id),
        timeline.len() <= query.max_scan,
        timeline.len() <= query.max_per_user,
        s.posts.contains_key(entry.post_id),
        !s.deleted.contains(s.posts[entry.post_id].post_id),
        !s.posts[entry.post_id].is_retweet || s.posts[entry.post_id].source_user_id != Some(
            query.requester,
        ),
        s.posts[entry.post_id].in_reply_to_post_id == Some(parent),
        s.posts.contains_key(parent),
        !s.posts[parent].is_reply,
        !s.posts[parent].is_retweet,
    ensures
        served(s, timeline, query).contains(s.posts[entry.post_id]),
{
    law_replies_to_originals_pass(s, entry, query, parent);
    law_listed_posts_are_served(s, timeline, query, entry);
}

/// A reply to a stored post that is itself a reply or a retweet passes exactly the
/// readers who follow nobody and those who follow the account that it answers, and to
/// these only where the post that it answers is itself a direct answer to the post that
/// began the conversation. A reply to a post that is not stored passes only the readers
/// who follow nobody.
pub proof fn law_when_replies_to_replies_pass(
    s: StoreState,
    entry: TinyPost,
    query: Query,
    parent: i64,
)
    requires
        s.posts.contains_key(entry.post_id),
        !s.deleted.contains(s.posts[entry.post_id].post_id),
        !s.posts[entry.post_id].is_retweet || s.posts[entry.post_id].source_user_id != Some(
            query.requester,
        ),
        s.posts[entry.post_id].in_reply_to_post_id == Some(parent),
    ensures
        query.following == Set::<i64>::empty() ==> is_served(s, entry, query),
        query.following != Set::<i64>::empty() && !s.posts.contains_key(parent) ==> !is_served(
            s,
            entry,
            query,
        ),
        query.following != Set::<i64>::empty() && s.posts.contains_key(parent) && (
        s.posts[parent].is_reply || s.posts[parent].is_retweet) && is_served(s, entry, query) ==> {
            &&& s.posts[entry.post_id].conversation_id is Some
            &&& s.posts[parent].in_reply_to_post_id == s.posts[entry.post_id].conversation_id
            &&& s.posts[entry.post_id].in_reply_to_user_id is Some
            &&& query.following.contains(s.posts[entry.post_id].in_reply_to_user_id->0)
        },
{
    if query.following != Set::<i64>::empty() {
        assert(!(query.following =~= Set::<i64>::empty()));
        assert(!query.following.is_empty());
    }
}

/// A reply whose parent answers the root of their common conversation passes a reader
/// who follows the account that it answers.
pub proof fn law_followed_conversations_pass(
    s: StoreState,
    entry: TinyPost,
    query: Query,
    parent: i64,
    root: i64,
    answered: i64,
)
    requires
        s.posts.contains_key(entry.post_id),
        !s.deleted.contains(s.posts[entry.post_id].post_id),
        !s.posts[entry.post_id].is_retweet || s.posts[entry.post_id].source_user_id != Some(
            query.requester,
        ),
        s.posts[entry.post_id].in_reply_to_post_id == Some(parent),
        s.posts.contains_key(parent),
        s.posts[entry.post_id].conversation_id == Some(root),
        s.posts[parent].in_reply_to_post_id == Some(root),
        s.posts[entry.post_id].in_reply_to_user_id == Some(answered),
        query.following.contains(answered),
    ensures
        is_served(s, entry, query),
{
}

// How a timeline is read.

proof fn lemma_filter_all<T>(s: Seq<T>, p: spec_fn(T) -> bool)
    requires
        forall|i: int| 0 <= i < s.len() ==> p(#[trigger] s[i]),
    ensures
        s.filter(p) == s,
    decreases s.len(),
{
    reveal(Seq::filter);
    if s.len() > 0 {
        let front = s.drop_last();
        assert forall|i: int| 0 <= i < front.len() implies p(#[trigger] front[i]) by {
            assert(front[i] == s[i]);
        }
        lemma_filter_all(front, p);
        assert(p(s[s.len() - 1]));
        assert(front.push(s.last()) =~= s);
    } else {
        assert(s.filter(p) =~= s);
    }
}

proof fn lemma_filter_none<T>(x: T, p: spec_fn(T) -> bool)
    requires
        !p(x),
    ensures
        seq![x].filter(p) == Seq::<T>::empty(),
{
    reveal(Seq::filter);
    let one = seq![x];
    assert(one.drop_last() =~= Seq::<T>::empty());
    assert(one.last() == x);
    assert(one.drop_last().filter(p) =~= Seq::<T>::empty());
}

/// A timeline all of whose posts pass is read from its end: as many posts as the limits
/// allow, the last entry's first.
pub proof fn law_timelines_are_read_from_the_end(
    s: StoreState,
    timeline: Seq<TinyPost>,
    query: Query,
    i: int,
)
    requires
        forall|n: int|
            0 <= n < timeline.len() ==> is_served(s, #[trigger] timeline[n], query)
                && !query.exclude.contains(timeline[n].post_id),
    ensures
        served(s, timeline, query).len() <= timeline.len(),
        served(s, timeline, query).len() <= query.max_scan,
        served(s, timeline, query).len() <= query.max_per_user,
        served(s, timeline, query).len() == timeline.len() || served(s, timeline, query).len()
            == query.max_scan || served(s, timeline, query).len() == query.max_per_user,
        0 <= i < served(s, timeline, query).len() ==> served(s, timeline, query)[i]
            == s.posts[timeline[timeline.len() - 1 - i].post_id],
{
    let wanted = |entry: TinyPost| !query.exclude.contains(entry.post_id);
    let passes = |entry: TinyPost| is_served(s, entry, query);
    let newest_first = timeline.reverse();
    assert forall|n: int| 0 <= n < newest_first.len() implies wanted(#[trigger] newest_first[n]) by {
        assert(newest_first[n] == timeline[timeline.len() - 1 - n]);
    }
    lemma_filter_all(newest_first, wanted);
    let seen = scanned(timeline, query);
    assert forall|n: int| 0 <= n < seen.len() implies passes(#[trigger] seen[n]) by {
        assert(seen[n] == timeline[timeline.len() - 1 - n]);
    }
    lemma_filter_all(seen, passes);
}

/// An excluded entry does not count: a timeline yields the same without it.
pub proof fn law_excluded_entries_are_passed_over(
    s: StoreState,
    older: Seq<TinyPost>,
    entry: TinyPost,
    newer: Seq<TinyPost>,
    query: Query,
)
    requires
        query.exclude.contains(entry.post_id),
    ensures
        served(s, older + seq![entry] + newer, query) == served(s, older + newer, query),
{
    let wanted = |e: TinyPost| !query.exclude.contains(e.post_id);
    let one = seq![entry];
    lemma_filter_none(entry, wanted);
    assert((older + one + newer).reverse() =~= newer.reverse() + one + older.reverse());
    assert((older + newer).reverse() =~= newer.reverse() + older.reverse());
    Seq::filter_distributes_over_add(newer.reverse() + one, older.reverse(), wanted);
    Seq::filter_distributes_over_add(newer.reverse(), one, wanted);
    Seq::filter_distributes_over_add(newer.reverse(), older.reverse(), wanted);
    assert(newer.reverse().filter(wanted) + Seq::<TinyPost>::empty() =~= newer.reverse().filter(
        wanted,
    ));
}

/// An entry whose post does not pass takes no place among those that are handed out:
/// where the whole timeline is looked at it yields the same without it.
pub proof fn law_entries_that_do_not_pass_take_no_place(
    s: StoreState,
    older: Seq<TinyPost>,
    entry: TinyPost,
    newer: Seq<TinyPost>,
    query: Query,
)
    requires
        !is_served(s, entry, query),
        older.len() + 1 + newer.len() <= query.max_scan,
    ensures
        served(s, older + seq![entry] + newer, query) == served(s, older + newer, query),
{
    let wanted = |e: TinyPost| !query.exclude.contains(e.post_id);
    let passes = |e: TinyPost| is_served(s, e, query);
    let one = seq![entry];
    assert((older + one + newer).reverse() =~= newer.reverse() + one + older.reverse());
    assert((older + newer).reverse() =~= newer.reverse() + older.reverse());
    Seq::filter_distributes_over_add(newer.reverse() + one, older.reverse(), wanted);
    Seq::filter_distributes_over_add(newer.reverse(), one, wanted);
    Seq::filter_distributes_over_add(newer.reverse(), older.reverse(), wanted);
    let a = newer.reverse().filter(wanted);
    let b = one.filter(wanted);
    let c = older.reverse().filter(wanted);
    newer.reverse().lemma_filter_len(wanted);
    one.lemma_filter_len(wanted);
    older.reverse().lemma_filter_len(wanted);
    assert(scanned(older + one + newer, query) =~= a + b + c);
    assert(scanned(older + newer, query) =~= a + c);
    Seq::filter_distributes_over_add(a + b, c, passes);
    Seq::filter_distributes_over_add(a, b, passes);
    Seq::filter_distributes_over_add(a, c, passes);
    if !wanted(entry) {
        lemma_filter_none(entry, wanted);
    } else {
        assert(one[0] == entry);
        lemma_filter_all(one, wanted);
        lemma_filter_none(entry, passes);
    }
    reveal(Seq::filter);
    assert(b.filter(passes) =~= Seq::<TinyPost>::empty());
    assert(a.filter(passes) + Seq::<TinyPost>::empty() =~= a.filter(passes));
}

/// What lies further back than a query looks does not matter.
pub proof fn law_older_entries_are_not_looked_at(
    s: StoreState,
    older: Seq<TinyPost>,
    newer: Seq<TinyPost>,
    query: Query,
)
    requires
        forall|n: int|
            0 <= n < newer.len() ==> !query.exclude.contains((#[trigger] newer[n]).post_id),
        newer.len() >= query.max_scan,
    ensures
        served(s, older + newer, query) == served(s, newer, query),
{
    let wanted = |e: TinyPost| !query.exclude.contains(e.post_id);
    assert((older + newer).reverse() =~= newer.reverse() + older.reverse());
    Seq::filter_distributes_over_add(newer.reverse(), older.reverse(), wanted);
    let front = newer.reverse();
    assert forall|n: int| 0 <= n < front.len() implies wanted(#[trigger] front[n]) by {
        assert(front[n] == newer[newer.len() - 1 - n]);
    }
    lemma_filter_all(front, wanted);
    let all = front + older.reverse().filter(wanted);
    assert(first(all, query.max_scan) =~= first(front, query.max_scan));
}

/// A query may hand out as many posts as pass, up to its limit, and no fewer.
pub proof fn law_as_many_as_allowed_are_served(
    s: StoreState,
    timeline: Seq<TinyPost>,
    query: Query,
    wider: Query,
)
    requires
        wider == (Query { max_per_user: wider.max_per_user, ..query }),
        query.max_per_user <= wider.max_per_user,
    ensures
        served(s, timeline, wider).len() <= query.max_per_user ==> served(s, timeline, query)
            == served(s, timeline, wider),
        served(s, timeline, wider).len() > query.max_per_user ==> served(s, timeline, query)
            == served(s, timeline, wider).take(query.max_per_user as int),
{
    let narrow = |e: TinyPost| is_served(s, e, query);
    let wide = |e: TinyPost| is_served(s, e, wider);
    assert(narrow =~= wide);
    let wanted = |e: TinyPost| !query.exclude.contains(e.post_id);
    let wanted_too = |e: TinyPost| !wider.exclude.contains(e.post_id);
    assert(wanted =~= wanted_too);
    assert(scanned(timeline, query) == scanned(timeline, wider));
    let all = scanned(timeline, query).filter(narrow);
    let post = |e: TinyPost| s.posts[e.post_id];
    assert(served(s, timeline, query) == first(all, query.max_per_user).map_values(post));
    assert(served(s, timeline, wider) == first(all, wider.max_per_user).map_values(post));
    if served(s, timeline, wider).len() > query.max_per_user {
        assert(served(s, timeline, query) =~= served(s, timeline, wider).take(
            query.max_per_user as int,
        ));
    } else {
        assert(served(s, timeline, query) =~= served(s, timeline, wider));
    }
}

// Several users.

/// The posts of several users stand one user after the other, each user's as if no
/// other had been asked for.
pub proof fn law_users_are_read_one_after_the_other(
    s: StoreState,
    table: Map<i64, Seq<TinyPost>>,
    some: Seq<i64>,
    others: Seq<i64>,
    user: i64,
    query: Query,
)
    ensures
        served_all(s, table, some + others, query) == served_all(s, table, some, query)
            + served_all(s, table, others, query),
        table.contains_key(user) ==> served_all(s, table, seq![user], query) == served(
            s,
            table[user],
            query,
        ),
        !table.contains_key(user) ==> served_all(s, table, seq![user], query).len() == 0,
        served_all(s, table, Seq::empty(), query).len() == 0,
        listed_by(table, some + others) == listed_by(table, some) + listed_by(table, others),
        table.contains_key(user) ==> listed_by(table, seq![user]) == table[user].len(),
        !table.contains_key(user) ==> listed_by(table, seq![user]) == 0,
        listed_by(table, Seq::empty()) == 0,
{
    lemma_served_joined(s, table, some, others, query);
    lemma_listed_joined(table, some, others);
    let one = seq![user];
    assert(one.drop_last() =~= Seq::<i64>::empty());
    reveal_with_fuel(served_all, 2);
    reveal_with_fuel(listed_by, 2);
    assert(served_all(s, table, one, query) =~= served(s, timeline_of(table, user), query));
    if !table.contains_key(user) {
        let none = Seq::<TinyPost>::empty();
        let wanted = |e: TinyPost| !query.exclude.contains(e.post_id);
        let passes = |e: TinyPost| is_served(s, e, query);
        assert(none.reverse() =~= none);
        lemma_filter_all(none, wanted);
        lemma_filter_all(none, passes);
    }
}

proof fn lemma_served_joined(
    s: StoreState,
    table: Map<i64, Seq<TinyPost>>,
    some: Seq<i64>,
    others: Seq<i64>,
    query: Query,
)
    ensures
        served_all(s, table, some + others, query) == served_all(s, table, some, query)
            + served_all(s, table, others, query),
    decreases others.len(),
{
    let all = served_all(s, table, some, query) + served_all(s, table, others, query);
    if others.len() == 0 {
        assert(some + others =~= some);
        assert(all =~= served_all(s, table, some, query));
    } else {
        lemma_served_joined(s, table, some, others.drop_last(), query);
        assert((some + others).drop_last() =~= some + others.drop_last());
        assert((some + others).last() == others.last());
        assert(served_all(s, table, some + others, query) =~= all);
    }
}

proof fn lemma_listed_joined(table: Map<i64, Seq<TinyPost>>, some: Seq<i64>, others: Seq<i64>)
    ensures
        listed_by(table, some + others) == listed_by(table, some) + listed_by(table, others),
    decreases others.len(),
{
    if others.len() == 0 {
        assert(some + others =~= some);
    } else {
        lemma_listed_joined(table, some, others.drop_last());
        assert((some + others).drop_last() =~= some + others.drop_last());
        assert((some + others).last() == others.last());
    }
}

/// An answer that may not stop early has the posts of every user; one that may has those
/// of the first users, each in full.
pub proof fn law_answers_reach_users_in_order(
    found: Seq<LightPost>,
    s: StoreState,
    table: Map<i64, Seq<TinyPost>>,
    users: Seq<i64>,
    query: Query,
    may_stop: bool,
) -> (reached: int)
    requires
        is_answer(found, s, table, users, query, may_stop),
    ensures
        0 <= reached <= users.len(),
        !may_stop ==> reached == users.len(),
        found == served_all(s, table, users.take(reached), query),
        found + served_all(s, table, users.skip(reached), query) == served_all(
            s,
            table,
            users,
            query,
        ),
{
    let reached = choose|reached: int|
        {
            &&& 0 <= reached <= users.len()
            &&& !may_stop ==> reached == users.len()
            &&& found == served_all(s, table, #[trigger] users.take(reached), query)
        };
    lemma_served_joined(s, table, users.take(reached), users.skip(reached), query);
    assert(users.take(reached) + users.skip(reached) =~= users);
    reached
}

/// What was read of several users: the posts and the number of entries of those that
/// were reached. A store without a timeout reaches all of them, and does not stop at any
/// time; one with a timeout stops once that has passed.
pub proof fn law_reads_reach_users_in_order(
    store: PostStore,
    read: UsersRead,
    table: Map<i64, Seq<TinyPost>>,
    users: Seq<i64>,
    query: Query,
    elapsed_ms: u128,
)
    requires
        store.is_read(read, table, users, query),
    ensures
        read.reached <= users.len(),
        store.config().request_timeout_ms == 0 ==> read.reached == users.len() && read.posts@
            == served_all(store@, table, users, query),
        read.posts@ == served_all(store@, table, users.take(read.reached as int), query),
        listed_by(table, users.take(read.reached as int)) <= usize::MAX ==> read.listed
            == listed_by(table, users.take(read.reached as int)),
        listed_by(table, users.take(read.reached as int)) > usize::MAX ==> read.listed
            == usize::MAX,
        store.config().request_timeout_ms == 0 ==> !store.must_stop(elapsed_ms),
        store.config().request_timeout_ms > 0 ==> (store.must_stop(elapsed_ms) <==> elapsed_ms
            >= store.config().request_timeout_ms),
{
    assert(users.take(users.len() as int) =~= users);
}

/// A query asks for what its caller said, and looks at as many entries of a timeline as
/// the store is set to.
pub proof fn law_queries_ask_what_the_caller_said(
    store: PostStore,
    max_per_user: usize,
    exclude: Set<i64>,
    following: Set<i64>,
    requester: i64,
)
    ensures
        store.query(max_per_user, exclude, following, requester).exclude == exclude,
        store.query(max_per_user, exclude, following, requester).following == following,
        store.query(max_per_user, exclude, following, requester).requester == requester,
        store.query(max_per_user, exclude, following, requester).max_per_user == max_per_user,
        store.query(max_per_user, exclude, following, requester).max_scan
            == store.config().limits.max_tiny_posts_per_user_scan,
{
}

/// A timeline with more than twice the room that it needs is cut down to half as much
/// again as it needs; others are left as they are. A total that does not fit is counted
/// as the greatest number that does.
pub proof fn law_room_is_cut_down(length: int, capacity: int, total: nat)
    requires
        length >= 0,
    ensures
        capacity <= length + length ==> wanted_capacity(length, capacity) is None,
        capacity > length + length ==> (wanted_capacity(length, capacity) matches Some(room) && 2
            * room <= 3 * length < 2 * room + 2 && room <= capacity),
        total <= usize::MAX ==> saturated(total) == total,
        total > usize::MAX ==> saturated(total) == usize::MAX,
{
}

} // verus!
