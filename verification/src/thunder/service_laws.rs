//! What a request for in-network posts gets, and which requests are let in.

use vstd::prelude::*;

use crate::ordering::{
    is_sorted_by, lemma_stable_sorted, lemma_with_key_is_filter, stable_sorted, with_key,
};
use crate::thunder::admission::{
    after_arrival, after_departure, all_free, free_permits, permits_after, PermitEvent, PermitState,
};
use crate::thunder::post_store::PostStore;
use crate::thunder::posts::{LightPost, TinyPost};
use crate::thunder::service::{
    accepted_ids, asks_for_accounts, is_found, is_retrieved, most_recent, permits_after_fetch,
    result_bound, GetInNetworkPostsRequest, ReadFigures, Retrieval, RetrievalPlan, ServiceLimits,
};
use crate::thunder::statistics::{authors, is_newest, is_oldest, replies};
use crate::thunder::store_model::{listed_by, served_all, Query};

verus! {

// Letting requests in.

/// A request is let in exactly if fewer are in flight than the capacity allows, and then
/// one more is; else it is counted as turned away and nothing else changes.
pub proof fn law_requests_are_let_in_up_to_the_capacity(permits: PermitState)
    requires
        permits.in_flight <= permits.capacity,
    ensures
        free_permits(permits) > 0 <==> permits.in_flight < permits.capacity,
        after_arrival(permits).capacity == permits.capacity,
        permits.in_flight < permits.capacity ==> after_arrival(permits).in_flight
            == permits.in_flight + 1 && after_arrival(permits).rejected == permits.rejected,
        permits.in_flight == permits.capacity ==> after_arrival(permits).in_flight
            == permits.in_flight,
        permits.in_flight == permits.capacity && permits.rejected < u64::MAX ==> after_arrival(
            permits,
        ).rejected == permits.rejected + 1,
        permits.in_flight == permits.capacity && permits.rejected == u64::MAX ==> after_arrival(
            permits,
        ).rejected == permits.rejected,
{
}

/// A request that ends makes room for one, and nothing else changes; one whose accounts
/// were named goes on. At first nothing is in flight and nothing was turned away.
pub proof fn law_requests_that_end_make_room(permits: PermitState, capacity: usize)
    requires
        permits.in_flight > 0,
    ensures
        after_departure(permits).in_flight == permits.in_flight - 1,
        after_departure(permits).capacity == permits.capacity,
        after_departure(permits).rejected == permits.rejected,
        permits_after_fetch(permits, true) == permits,
        permits_after_fetch(permits, false).in_flight == permits.in_flight - 1,
        permits_after_fetch(permits, false).capacity == permits.capacity,
        permits_after_fetch(permits, false).rejected == permits.rejected,
        all_free(capacity).capacity == capacity,
        all_free(capacity).in_flight == 0,
        all_free(capacity).rejected == 0,
{
}

/// What happens to the permits happens one event after the other.
pub proof fn law_permit_events_follow_one_another(capacity: usize, events: Seq<PermitEvent>)
    ensures
        permits_after(capacity, Seq::empty()).in_flight == 0,
        permits_after(capacity, Seq::empty()).rejected == 0,
        permits_after(capacity, Seq::empty()).capacity == capacity,
        permits_after(capacity, events.push(PermitEvent::Arrival)) == after_arrival(
            permits_after(capacity, events),
        ),
        permits_after(capacity, events.push(PermitEvent::Departure)) == after_departure(
            permits_after(capacity, events),
        ),
{
    assert(events.push(PermitEvent::Arrival).drop_last() =~= events);
    assert(events.push(PermitEvent::Departure).drop_last() =~= events);
}

/// Accounts are asked for exactly if the request names none and is for debugging.
pub proof fn law_accounts_are_asked_for_while_debugging(request: GetInNetworkPostsRequest)
    ensures
        request.following_user_ids@.len() > 0 ==> !asks_for_accounts(request),
        !request.debug ==> !asks_for_accounts(request),
        request.following_user_ids@.len() == 0 && request.debug ==> asks_for_accounts(request),
{
}

// What the store is asked.

/// A request gets as many posts as it asks for; one that does not say gets the service's
/// number for videos if it is for videos, else that for posts.
pub proof fn law_requests_get_the_bound_of_their_kind(
    request: GetInNetworkPostsRequest,
    limits: ServiceLimits,
)
    ensures
        request.max_results > 0 ==> result_bound(request, limits) == request.max_results,
        request.max_results == 0 && request.is_video_request ==> result_bound(request, limits)
            == limits.max_videos_to_return,
        request.max_results == 0 && !request.is_video_request ==> result_bound(request, limits)
            == limits.max_posts_to_return,
{
}

/// Of a list of ids the first are looked at, as many as the service allows, in order.
pub proof fn law_lists_are_cut_at_the_end(ids: Seq<u64>, limit: usize, i: int)
    ensures
        ids.len() <= limit ==> accepted_ids(ids, limit).len() == ids.len(),
        ids.len() > limit ==> accepted_ids(ids, limit).len() == limit,
        0 <= i < accepted_ids(ids, limit).len() ==> accepted_ids(ids, limit)[i] == ids[i] as i64,
{
}

// What is handed out.

/// The posts handed out stand the newest first, are among those that were found, and no
/// post that is left out is newer than one of them; as many are handed out as are wanted
/// and there are. Posts of one moment keep their order.
pub proof fn law_the_newest_are_handed_out(posts: Seq<LightPost>, max_results: usize, moment: i64)
    ensures
        ({
            let recent = most_recent(posts, max_results);
            &&& posts.len() <= max_results ==> recent.len() == posts.len()
            &&& posts.len() > max_results ==> recent.len() == max_results
            &&& forall|i: int, j: int|
                0 <= i <= j < recent.len() ==> (#[trigger] recent[j]).created_at <= (
                #[trigger] recent[i]).created_at
            &&& forall|i: int| 0 <= i < recent.len() ==> posts.contains(#[trigger] recent[i])
            &&& forall|i: int, post: LightPost|
                0 <= i < recent.len() && #[trigger] posts.contains(post) && !recent.contains(post)
                    ==> post.created_at <= (#[trigger] recent[i]).created_at
            &&& posts.len() <= max_results ==> recent.filter(
                |post: LightPost| post.created_at == moment,
            ) == posts.filter(|post: LightPost| post.created_at == moment)
        }),
{
    broadcast use vstd::seq_lib::group_to_multiset_ensures;

    let newest_first = |post: LightPost| -(post.created_at as int);
    let sorted = stable_sorted(posts, newest_first);
    let recent = most_recent(posts, max_results);
    lemma_stable_sorted(posts, newest_first);
    assert(is_sorted_by(sorted, newest_first));
    assert forall|i: int, j: int| 0 <= i <= j < recent.len() implies (
    #[trigger] recent[j]).created_at <= (#[trigger] recent[i]).created_at by {
        assert(newest_first(sorted[i]) <= newest_first(sorted[j]));
    }
    assert forall|i: int| 0 <= i < recent.len() implies posts.contains(#[trigger] recent[i]) by {
        assert(sorted[i] == recent[i]);
        assert(sorted.to_multiset().count(recent[i]) > 0);
    }
    assert forall|i: int, post: LightPost|
        0 <= i < recent.len() && #[trigger] posts.contains(post) && !recent.contains(
            post,
        ) implies post.created_at <= (#[trigger] recent[i]).created_at by {
        assert(posts.to_multiset().count(post) > 0);
        assert(sorted.contains(post));
        let j = sorted.index_of(post);
        if j < recent.len() {
            assert(recent[j] == post);
        }
        assert(newest_first(sorted[i]) <= newest_first(sorted[j]));
    }
    if posts.len() <= max_results {
        let k = -(moment as int);
        let of_the_moment = |post: LightPost| post.created_at == moment;
        assert(recent == sorted);
        assert(with_key(sorted, newest_first, k) == with_key(posts, newest_first, k));
        lemma_with_key_is_filter(sorted, newest_first, k, of_the_moment);
        lemma_with_key_is_filter(posts, newest_first, k, of_the_moment);
    }
}

/// What was found is what the timelines of the reached users yield, and the figures are
/// its numbers. Without a timeout every user is reached.
pub proof fn law_figures_tell_what_was_found(
    found: Seq<LightPost>,
    figures: ReadFigures,
    store: PostStore,
    table: Map<i64, Seq<TinyPost>>,
    users: Seq<i64>,
    query: Query,
)
    requires
        is_found(found, figures, store, table, users, query),
    ensures
        figures.asked == users.len(),
        figures.reached <= figures.asked,
        figures.returned == found.len(),
        found == served_all(store@, table, users.take(figures.reached as int), query),
        listed_by(table, users.take(figures.reached as int)) <= usize::MAX ==> figures.listed
            == listed_by(table, users.take(figures.reached as int)),
        store.config().request_timeout_ms == 0 ==> figures.reached == users.len() && found
            == served_all(store@, table, users, query),
{
    assert(users.take(users.len() as int) =~= users);
}

/// Without a timeout a request for videos finds the videos of every account, and any other
/// request the original posts of every account and then the replies and retweets. Posts
/// that are excluded are not wanted, no timeline yields more than its kind allows, and only
/// of replies and retweets it matters who is followed.
pub proof fn law_retrievals_find_what_was_asked_for(
    retrieval: Retrieval,
    store: PostStore,
    plan: RetrievalPlan,
)
    requires
        is_retrieved(retrieval, store, plan),
        store.config().request_timeout_ms == 0,
    ensures
        ({
            let limits = store.config().limits;
            let users = plan.following_user_ids@;
            let asking = |max_per_user: usize, following: Set<i64>|
                Query {
                    exclude: plan.exclude_tweet_ids@,
                    following,
                    requester: plan.request_user_id,
                    max_scan: limits.max_tiny_posts_per_user_scan as nat,
                    max_per_user: max_per_user as nat,
                };
            &&& plan.is_video_request ==> {
                &&& retrieval.second_read is None
                &&& retrieval.found@ == served_all(
                    store@,
                    store@.video,
                    users,
                    asking(limits.max_video_posts_per_author, Set::empty()),
                )
                &&& retrieval.first_read.returned == retrieval.found@.len()
                &&& retrieval.first_read.reached == users.len()
            }
            &&& !plan.is_video_request ==> {
                &&& retrieval.second_read is Some
                &&& retrieval.found@ == served_all(
                    store@,
                    store@.original,
                    users,
                    asking(limits.max_original_posts_per_author, Set::empty()),
                ) + served_all(
                    store@,
                    store@.secondary,
                    users,
                    asking(limits.max_reply_posts_per_author, users.to_set()),
                )
                &&& retrieval.first_read.returned + retrieval.second_read->0.returned
                    == retrieval.found@.len()
                &&& retrieval.first_read.reached == users.len()
                &&& retrieval.second_read->0.reached == users.len()
            }
        }),
{
    let users = plan.following_user_ids@;
    assert(users.take(users.len() as int) =~= users);
    if !plan.is_video_request {
        let split = retrieval.first_read.returned as int;
        assert(retrieval.found@.take(split) + retrieval.found@.skip(split) =~= retrieval.found@);
    }
}

// Figures.

/// The figures of posts: replies are counted one by one, authors are those who wrote one of
/// the posts, and the newest and the oldest moment are those of posts that no other
/// exceeds.
pub proof fn law_figures_count_what_is_there(
    posts: Seq<LightPost>,
    post: LightPost,
    author: i64,
    newest: int,
    oldest: int,
)
    ensures
        replies(Seq::<LightPost>::empty()).len() == 0,
        post.is_reply ==> replies(posts.push(post)).len() == replies(posts).len() + 1,
        !post.is_reply ==> replies(posts.push(post)).len() == replies(posts).len(),
        authors(posts).contains(author) <==> exists|i: int|
            0 <= i < posts.len() && (#[trigger] posts[i]).author_id == author,
        is_newest(posts, newest) ==> (forall|i: int|
            0 <= i < posts.len() ==> (#[trigger] posts[i]).created_at <= newest) && (exists|i: int|
            0 <= i < posts.len() && (#[trigger] posts[i]).created_at == newest),
        is_oldest(posts, oldest) ==> (forall|i: int|
            0 <= i < posts.len() ==> oldest <= (#[trigger] posts[i]).created_at) && (exists|i: int|
            0 <= i < posts.len() && (#[trigger] posts[i]).created_at == oldest),
{
    let is_reply = |p: LightPost| p.is_reply;
    let written_by = posts.map_values(|p: LightPost| p.author_id);
    posts.lemma_filter_push(post, is_reply);
    assert(Seq::<LightPost>::empty().filter(is_reply).len() == 0) by {
        reveal(Seq::filter);
    }
    if authors(posts).contains(author) {
        assert(written_by.contains(author));
        let i = written_by.index_of(author);
        assert(posts[i].author_id == author);
    }
    if exists|i: int| 0 <= i < posts.len() && (#[trigger] posts[i]).author_id == author {
        let i = choose|i: int| 0 <= i < posts.len() && (#[trigger] posts[i]).author_id == author;
        assert(written_by[i] == author);
        assert(written_by.contains(author));
    }
}

} // verus!
