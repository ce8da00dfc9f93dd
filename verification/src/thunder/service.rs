//! Answering requests for the recent posts of followed accounts.

use std::collections::HashSet;
use std::time::Instant;
use vstd::prelude::*;

use crate::ordering::{lemma_order_sorts, lemma_stable_sorted, sort_copies, stable_sorted};
use crate::seqs::{first, lemma_one_more};
use crate::status::{joined, Status, StatusView};
use crate::thunder::admission::{
    after_arrival, after_departure, free_permits, PermitState, RequestPermits,
};
use crate::thunder::post_store::{saturated, PostStore, UsersRead};
use crate::thunder::posts::{LightPost, TinyPost};
use crate::thunder::store_model::{listed_by, served_all, Query};

verus! {

broadcast use vstd::std_specs::hash::group_hash_axioms;

/// A request for the recent posts of followed accounts.
#[derive(Clone, Debug, PartialEq, Eq)]
pub struct GetInNetworkPostsRequest {
    /// Who asks.
    pub user_id: u64,
    /// Whose posts are wanted.
    pub following_user_ids: Vec<u64>,
    /// Posts that are not wanted.
    pub exclude_tweet_ids: Vec<u64>,
    /// How many posts are wanted; 0 leaves it to the service.
    pub max_results: u32,
    pub is_video_request: bool,
    pub debug: bool,
}

/// The bounds that the service works within.
#[derive(Clone, Copy, Debug, PartialEq, Eq, Structural)]
pub struct ServiceLimits {
    /// How many entries of each list of a request are looked at.
    pub max_input_list_size: usize,
    /// How many posts are handed out where the request does not say.
    pub max_posts_to_return: usize,
    /// How many video posts are handed out where the request does not say.
    pub max_videos_to_return: usize,
}

/// What has to be done for a request that was let in.
#[derive(Clone, Debug, PartialEq, Eq)]
pub enum ServiceStep {
    /// Ask who is followed by `user_id`, for at most `limit` accounts.
    FetchFollowing { user_id: i64, limit: i32 },
    /// Read the posts of `following_user_ids`.
    Retrieve { following_user_ids: Vec<u64> },
}

/// What the store is asked for a request.
pub struct RetrievalPlan {
    pub following_user_ids: Vec<i64>,
    pub exclude_tweet_ids: HashSet<i64>,
    pub request_user_id: i64,
    pub max_results: usize,
    pub is_video_request: bool,
}

/// Whether the accounts that a request is about are to be asked for.
pub open spec fn asks_for_accounts(request: GetInNetworkPostsRequest) -> bool {
    request.following_user_ids@.len() == 0 && request.debug
}

/// The first step of a request. Where no permit is left the request is refused
/// at once, and there is nothing to do for it. Else it holds a permit until it
/// ends. Accounts that the request does not name are asked for only while
/// debugging.
pub fn begin_request(
    permits: &mut RequestPermits,
    request: &GetInNetworkPostsRequest,
    limits: &ServiceLimits,
) -> (step: Result<ServiceStep, Status>)
    ensures
        final(permits)@ == after_arrival(old(permits)@),
        free_permits(old(permits)@) <= 0 ==> step is Err && step->Err_0@
            == StatusView::ResourceExhausted("Server at capacity, please retry"@),
        free_permits(old(permits)@) > 0 && asks_for_accounts(*request) ==> step == Ok::<
            ServiceStep,
            Status,
        >(
            (ServiceStep::FetchFollowing {
                user_id: request.user_id as i64,
                limit: limits.max_input_list_size as i32,
            }),
        ),
        free_permits(old(permits)@) > 0 && !asks_for_accounts(*request) ==> (step matches Ok(
            ServiceStep::Retrieve { following_user_ids },
        ) && following_user_ids@ == request.following_user_ids@),
{
    if !permits.enter() {
        return Err(
            Status::ResourceExhausted(String::from_str("Server at capacity, please retry")),
        );
    }
    if request.following_user_ids.len() == 0 && request.debug {
        Ok(
            ServiceStep::FetchFollowing {
                user_id: request.user_id as i64,
                limit: limits.max_input_list_size as i32,
            },
        )
    } else {
        let following_user_ids = request.following_user_ids.clone();
        assert(following_user_ids@ =~= request.following_user_ids@);
        Ok(ServiceStep::Retrieve { following_user_ids })
    }
}

/// The step after `FetchFollowing`: the accounts that were named, or the refusal
/// that says why none were. With a refusal the request ends and gives its permit
/// back.
pub fn following_fetched(permits: &mut RequestPermits, fetched: Result<Vec<i64>, String>) -> (step:
    Result<ServiceStep, Status>)
    requires
        old(permits)@.in_flight > 0,
    ensures
        (match fetched {
            Ok(ids) => step matches Ok(ServiceStep::Retrieve { following_user_ids })
                && following_user_ids@ == ids@.map_values(|id: i64| id as u64),
            Err(cause) => step is Err && step->Err_0@ == StatusView::Internal(
                "Failed to fetch following list: "@ + cause@,
            ),
        }),
        final(permits)@ == permits_after_fetch(old(permits)@, fetched is Ok),
{
    match fetched {
        Ok(ids) => {
            let mut following_user_ids: Vec<u64> = Vec::with_capacity(ids.len());
            let mut i: usize = 0;
            while i < ids.len()
                invariant
                    i <= ids.len(),
                    following_user_ids@ == ids@.take(i as int).map_values(|id: i64| id as u64),
                decreases ids.len() - i,
            {
                following_user_ids.push(ids[i] as u64);
                i = i + 1;
                assert(following_user_ids@ =~= ids@.take(i as int).map_values(
                    |id: i64| id as u64,
                ));
            }
            assert(ids@.take(i as int) =~= ids@);
            Ok(ServiceStep::Retrieve { following_user_ids })
        },
        Err(cause) => {
            permits.leave();
            Err(Status::Internal(joined("Failed to fetch following list: ", cause.as_str())))
        },
    }
}

/// The answer to a request once its posts were read, or the refusal where reading
/// them did not come to an end. The request ends either way and gives its permit
/// back.
pub fn end_request(permits: &mut RequestPermits, retrieved: Result<Retrieval, String>) -> (answer:
    Result<Retrieval, Status>)
    requires
        old(permits)@.in_flight > 0,
    ensures
        (match retrieved {
            Ok(retrieval) => answer == Ok::<Retrieval, Status>(retrieval),
            Err(cause) => answer is Err && answer->Err_0@ == StatusView::Internal(
                "Failed to process posts: "@ + cause@,
            ),
        }),
        final(permits)@ == after_departure(old(permits)@),
{
    permits.leave();
    match retrieved {
        Ok(retrieval) => Ok(retrieval),
        Err(cause) => Err(Status::Internal(joined("Failed to process posts: ", cause.as_str()))),
    }
}

/// The permits after accounts were asked for.
pub open spec fn permits_after_fetch(permits: PermitState, gets_accounts: bool) -> PermitState {
    if gets_accounts {
        permits
    } else {
        after_departure(permits)
    }
}

/// The permits after a request from its first step to its last, where no other comes
/// or ends meanwhile. One that is let in ends with the accounts that it asks for and
/// does not get, or else with its posts, whether or not they could be read.
pub open spec fn permits_after_request(
    permits: PermitState,
    request: GetInNetworkPostsRequest,
    gets_accounts: bool,
) -> PermitState {
    let begun = after_arrival(permits);
    if free_permits(permits) <= 0 {
        begun
    } else if !asks_for_accounts(request) {
        after_departure(begun)
    } else if gets_accounts {
        after_departure(permits_after_fetch(begun, true))
    } else {
        permits_after_fetch(begun, false)
    }
}

/// Whatever is answered, a request leaves the permits and the requests in flight as
/// they were; it is counted as turned away exactly where no permit was free.
pub proof fn law_requests_give_their_permit_back(
    permits: PermitState,
    request: GetInNetworkPostsRequest,
    gets_accounts: bool,
)
    requires
        permits.rejected < u64::MAX,
    ensures
        ({
            let after = permits_after_request(permits, request, gets_accounts);
            &&& free_permits(after) == free_permits(permits)
            &&& after.in_flight == permits.in_flight
            &&& free_permits(permits) > 0 ==> after.rejected == permits.rejected
            &&& free_permits(permits) <= 0 ==> after.rejected == permits.rejected + 1
        }),
{
}

/// How many posts a request gets at most.
pub open spec fn result_bound(request: GetInNetworkPostsRequest, limits: ServiceLimits) -> usize {
    if request.max_results > 0 {
        request.max_results as usize
    } else if request.is_video_request {
        limits.max_videos_to_return
    } else {
        limits.max_posts_to_return
    }
}

/// The ids of a list that are looked at, as the store has them.
pub open spec fn accepted_ids(ids: Seq<u64>, limit: usize) -> Seq<i64> {
    first(ids, limit as nat).map_values(|id: u64| id as i64)
}

fn accept_ids(ids: &Vec<u64>, limit: usize) -> (accepted: Vec<i64>)
    ensures
        accepted@ == accepted_ids(ids@, limit),
{
    let mut accepted: Vec<i64> = Vec::new();
    let mut i: usize = 0;
    while i < ids.len() && i < limit
        invariant
            i <= ids.len(),
            i <= limit,
            accepted@ == ids@.take(i as int).map_values(|id: u64| id as i64),
        decreases ids.len() - i,
    {
        accepted.push(ids[i] as i64);
        i = i + 1;
        assert(accepted@ =~= ids@.take(i as int).map_values(|id: u64| id as i64));
    }
    assert(ids@.take(i as int) =~= first(ids@, limit as nat));
    accepted
}

/// What the store is asked once it is known who is followed: both lists cut to
/// the size that the service looks at, and the bound on the result settled.
pub fn plan_retrieval(
    request: &GetInNetworkPostsRequest,
    following_user_ids: &Vec<u64>,
    limits: &ServiceLimits,
) -> (plan: RetrievalPlan)
    ensures
        plan.following_user_ids@ == accepted_ids(following_user_ids@, limits.max_input_list_size),
        plan.exclude_tweet_ids@ == accepted_ids(
            request.exclude_tweet_ids@,
            limits.max_input_list_size,
        ).to_set(),
        plan.request_user_id == request.user_id as i64,
        plan.max_results == result_bound(*request, *limits),
        plan.is_video_request == request.is_video_request,
{
    let excluded = accept_ids(&request.exclude_tweet_ids, limits.max_input_list_size);
    let mut exclude_tweet_ids: HashSet<i64> = HashSet::new();
    let mut i: usize = 0;
    while i < excluded.len()
        invariant
            i <= excluded.len(),
            exclude_tweet_ids@ == excluded@.take(i as int).to_set(),
        decreases excluded.len() - i,
    {
        exclude_tweet_ids.insert(excluded[i]);
        proof {
            lemma_one_more(excluded@, i as int);
        }
        i = i + 1;
    }
    assert(excluded@.take(i as int) =~= excluded@);
    let max_results: usize = if request.max_results > 0 {
        request.max_results as usize
    } else if request.is_video_request {
        limits.max_videos_to_return
    } else {
        limits.max_posts_to_return
    };
    RetrievalPlan {
        following_user_ids: accept_ids(following_user_ids, limits.max_input_list_size),
        exclude_tweet_ids,
        request_user_id: request.user_id as i64,
        max_results,
        is_video_request: request.is_video_request,
    }
}

/// The newest `max_results` of `posts`, the newest first.
pub open spec fn most_recent(posts: Seq<LightPost>, max_results: usize) -> Seq<LightPost> {
    first(stable_sorted(posts, |post: LightPost| -(post.created_at as int)), max_results as nat)
}

/// The newest `max_results` of `light_posts`, the newest first.
pub fn score_recent(light_posts: Vec<LightPost>, max_results: usize) -> (recent: Vec<LightPost>)
    ensures
        recent@ == most_recent(light_posts@, max_results),
{
    let ghost newest_first = |post: LightPost| -(post.created_at as int);
    let mut keys: Vec<i128> = Vec::with_capacity(light_posts.len());
    let mut i: usize = 0;
    while i < light_posts.len()
        invariant
            i <= light_posts.len(),
            keys.len() == i,
            forall|n: int| 0 <= n < i ==> keys@[n] == -(#[trigger] light_posts@[n]).created_at,
        decreases light_posts.len() - i,
    {
        keys.push(-(light_posts[i].created_at as i128));
        i = i + 1;
    }
    let mut recent = sort_copies(&light_posts, &keys);
    proof {
        lemma_order_sorts(light_posts@, keys@, newest_first);
        lemma_stable_sorted(light_posts@, newest_first);
    }
    recent.truncate(max_results);
    recent
}

/// The posts handed out are in order, the newest first, and no post that is left
/// out is newer than one of them.
pub proof fn law_most_recent_posts_come_first(
    posts: Seq<LightPost>,
    max_results: usize,
    i: int,
    j: int,
)
    requires
        0 <= i <= j < posts.len(),
        i < most_recent(posts, max_results).len(),
    ensures
        stable_sorted(posts, |post: LightPost| -(post.created_at as int)).to_multiset()
            == posts.to_multiset(),
        most_recent(posts, max_results).is_prefix_of(
            stable_sorted(posts, |post: LightPost| -(post.created_at as int)),
        ),
        stable_sorted(posts, |post: LightPost| -(post.created_at as int))[j].created_at
            <= most_recent(posts, max_results)[i].created_at,
{
    let newest_first = |post: LightPost| -(post.created_at as int);
    lemma_stable_sorted(posts, newest_first);
    let sorted = stable_sorted(posts, newest_first);
    assert(newest_first(sorted[i]) <= newest_first(sorted[j]));
    assert(most_recent(posts, max_results)[i] == sorted[i]);
}

/// A request gets the bound that it asks for, or else the default of its kind;
/// never more posts than that, and never more than were found.
pub proof fn law_results_are_bounded(posts: Seq<LightPost>, max_results: usize)
    ensures
        most_recent(posts, max_results).len() == if posts.len() < max_results {
            posts.len() as int
        } else {
            max_results as int
        },
{
    lemma_stable_sorted(posts, |post: LightPost| -(post.created_at as int));
}

/// What a read of the store came to.
#[derive(Clone, Copy, Debug, PartialEq, Eq, Structural)]
pub struct ReadFigures {
    /// How many users were asked about.
    pub asked: usize,
    /// How many of them were reached before the time was up.
    pub reached: usize,
    /// How many entries the timelines of those have.
    pub listed: usize,
    /// How many posts were found.
    pub returned: usize,
}

impl ReadFigures {
    /// Whether the time was up before every user was reached.
    pub fn is_timed_out(&self) -> (timed_out: bool)
        ensures
            timed_out == (self.reached < self.asked),
    {
        self.reached < self.asked
    }
}

fn figures(read: &UsersRead, asked: usize) -> (figures: ReadFigures)
    ensures
        figures == (ReadFigures {
            asked,
            reached: read.reached,
            listed: read.listed,
            returned: read.posts.len(),
        }),
{
    ReadFigures { asked, reached: read.reached, listed: read.listed, returned: read.posts.len() }
}

/// The posts found for a request, those of them that are handed out, and what
/// finding them came to: one read for a video request, or else one of the
/// original posts and a second of the replies and retweets.
pub struct Retrieval {
    pub found: Vec<LightPost>,
    pub posts: Vec<LightPost>,
    pub first_read: ReadFigures,
    pub second_read: Option<ReadFigures>,
}

/// `found` is what `table` yields for the users that were reached, and `figures`
/// are the numbers of that. A store without a timeout reaches all of them.
pub open spec fn is_found(
    found: Seq<LightPost>,
    figures: ReadFigures,
    store: PostStore,
    table: Map<i64, Seq<TinyPost>>,
    users: Seq<i64>,
    query: Query,
) -> bool {
    let reached = users.take(figures.reached as int);
    &&& figures.asked == users.len()
    &&& figures.reached <= users.len()
    &&& store.config().request_timeout_ms == 0 ==> figures.reached == users.len()
    &&& found == served_all(store@, table, reached, query)
    &&& figures.listed == saturated(listed_by(table, reached))
    &&& figures.returned == found.len()
}

/// What the store answers to a plan.
pub open spec fn is_retrieved(
    retrieval: Retrieval,
    store: PostStore,
    plan: RetrievalPlan,
) -> bool {
    let limits = store.config().limits;
    let users = plan.following_user_ids@;
    let exclude = plan.exclude_tweet_ids@;
    let requester = plan.request_user_id;
    if plan.is_video_request {
        retrieval.second_read is None && is_found(
            retrieval.found@,
            retrieval.first_read,
            store,
            store@.video,
            users,
            store.query(limits.max_video_posts_per_author, exclude, Set::empty(), requester),
        )
    } else {
        let split = retrieval.first_read.returned as int;
        retrieval.second_read matches Some(second_read) && split <= retrieval.found@.len()
            && is_found(
            retrieval.found@.take(split),
            retrieval.first_read,
            store,
            store@.original,
            users,
            store.query(limits.max_original_posts_per_author, exclude, Set::empty(), requester),
        ) && is_found(
            retrieval.found@.skip(split),
            second_read,
            store,
            store@.secondary,
            users,
            store.query(limits.max_reply_posts_per_author, exclude, users.to_set(), requester),
        )
    }
}

/// Reads the posts that a plan asks for, and keeps the newest of them.
pub fn get_in_network_posts(store: &PostStore, plan: &RetrievalPlan, start_time: Instant) -> (
    retrieval: Retrieval)
    ensures
        is_retrieved(retrieval, *store, *plan),
        retrieval.posts@ == most_recent(retrieval.found@, plan.max_results),
{
    let users = plan.following_user_ids.as_slice();
    let asked = plan.following_user_ids.len();
    let (found, first_read, second_read) = if plan.is_video_request {
        let read = store.read_videos_by_users(
            users,
            &plan.exclude_tweet_ids,
            start_time,
            plan.request_user_id,
        );
        let first_read = figures(&read, asked);
        (read.posts, first_read, None)
    } else {
        let (original, secondary) = store.read_all_posts_by_users(
            users,
            &plan.exclude_tweet_ids,
            start_time,
            plan.request_user_id,
        );
        let first_read = figures(&original, asked);
        let second_read = figures(&secondary, asked);
        let ghost (first_part, second_part) = (original.posts@, secondary.posts@);
        let mut found = original.posts;
        let mut rest = secondary.posts;
        found.append(&mut rest);
        proof {
            assert(found@ == first_part + second_part);
            assert(found@.take(first_part.len() as int) =~= first_part);
            assert(found@.skip(first_part.len() as int) =~= second_part);
        }
        (found, first_read, Some(second_read))
    };
    let all = found.clone();
    assert(all@ =~= found@);
    let posts = score_recent(all, plan.max_results);
    Retrieval { found, posts, first_read, second_read }
}

} // verus!
