//! What each filter of the feed is for, in terms of the reader's settings and of
//! what is known about the candidates.

use vstd::prelude::*;

use crate::candidate_pipeline::component::Component;
use crate::candidate_pipeline::filter::{
    is_split, lemma_split_is_partition, selected, Filter, FilterResult,
};
use crate::home_mixer::candidate::PostCandidate;
use crate::home_mixer::filters::age_filter::AgeFilter;
use crate::home_mixer::filters::author_socialgraph_filter::{is_welcome, AuthorSocialgraphFilter};
use crate::home_mixer::filters::common::{first_occurrences, kept_where};
use crate::home_mixer::filters::core_data_hydration_filter::{
    has_core_data, CoreDataHydrationFilter,
};
use crate::home_mixer::filters::dedup_conversation_filter::{
    conversation_of, deduplicated, is_slot, law_conversations_are_kept_once,
    law_conversations_keep_their_order, least, lemma_deduplication_is_partition, score_of,
    DedupConversationFilter,
};
use crate::home_mixer::filters::drop_duplicates_filter::{post_key, DropDuplicatesFilter};
use crate::home_mixer::filters::ineligible_subscription_filter::{
    is_readable, subscribed, IneligibleSubscriptionFilter,
};
use crate::home_mixer::filters::laws::{
    law_flagged_candidates_are_selected, law_selection_follows_flags,
};
use crate::home_mixer::filters::muted_keyword_filter::{unmuted, MutedKeywordFilter};
use crate::home_mixer::filters::previously_seen_posts_filter::{
    is_seen, is_unseen, PreviouslySeenPostsFilter, RelatedPost,
};
use crate::home_mixer::filters::previously_served_posts_filter::{
    is_unserved, PreviouslyServedPostsFilter,
};
use crate::home_mixer::filters::retweet_deduplication_filter::{
    content_key, RetweetDeduplicationFilter,
};
use crate::home_mixer::filters::self_tweet_filter::{is_by_another, SelfTweetFilter};
use crate::home_mixer::filters::vf_filter::{is_visible, VFFilter};
use crate::home_mixer::phoenix_candidate_pipeline::{
    kept_flags, parted, PhoenixEvidence, PhoenixFilter,
};
use crate::home_mixer::query::ScoredPostsQuery;
use crate::home_mixer::visibility::{Action, FilteredReason};
use crate::score::Score;
use crate::text::{is_blank_text, is_white_space};

verus! {

// What holds of every filter.

/// Two candidates that are selected stand in the order in which they came.
pub proof fn law_selection_keeps_the_order<C>(
    s: Seq<C>,
    flags: Seq<bool>,
    wanted: bool,
    i: int,
    j: int,
) -> (places: (int, int))
    requires
        s.len() == flags.len(),
        0 <= i < j < selected(s, flags, wanted).len(),
    ensures
        0 <= places.0 < places.1 < s.len(),
        flags[places.0] == wanted,
        flags[places.1] == wanted,
        selected(s, flags, wanted)[i] == s[places.0],
        selected(s, flags, wanted)[j] == s[places.1],
    decreases s.len(),
{
    let front = s.drop_last();
    let before = selected(front, flags.drop_last(), wanted);
    if j < before.len() {
        let places = law_selection_keeps_the_order(front, flags.drop_last(), wanted, i, j);
        assert(s[places.0] == front[places.0] && s[places.1] == front[places.1]);
        assert(flags[places.0] == flags.drop_last()[places.0]);
        assert(flags[places.1] == flags.drop_last()[places.1]);
        places
    } else {
        let place = law_selection_follows_flags(front, flags.drop_last(), wanted, i);
        assert(s[place] == front[place]);
        assert(flags[place] == flags.drop_last()[place]);
        (place, s.len() - 1)
    }
}

/// Where candidates are split by flags, one with a flag is kept and one without is
/// removed.
pub proof fn law_splits_follow_their_flags<C>(
    parts: FilterResult<C>,
    candidates: Seq<C>,
    flags: Seq<bool>,
    place: int,
)
    requires
        candidates.len() == flags.len(),
        is_split(parts, candidates, flags),
        0 <= place < candidates.len(),
    ensures
        flags[place] ==> parts.kept@.contains(candidates[place]),
        !flags[place] ==> parts.removed@.contains(candidates[place]),
        parts.kept@.len() + parts.removed@.len() == candidates.len(),
{
    lemma_split_is_partition(candidates, flags);
    law_flagged_candidates_are_selected(candidates, flags, flags[place], place);
}

/// Where candidates are split by flags, both parts keep the order of the candidates.
pub proof fn law_splits_keep_the_order<C>(
    parts: FilterResult<C>,
    candidates: Seq<C>,
    flags: Seq<bool>,
    i: int,
    j: int,
) -> (places: ((int, int), (int, int)))
    requires
        candidates.len() == flags.len(),
        is_split(parts, candidates, flags),
        0 <= i < j,
    ensures
        j < parts.kept@.len() ==> 0 <= places.0.0 < places.0.1 < candidates.len()
            && parts.kept@[i] == candidates[places.0.0] && parts.kept@[j]
            == candidates[places.0.1] && flags[places.0.0] && flags[places.0.1],
        j < parts.removed@.len() ==> 0 <= places.1.0 < places.1.1 < candidates.len()
            && parts.removed@[i] == candidates[places.1.0] && parts.removed@[j]
            == candidates[places.1.1] && !flags[places.1.0] && !flags[places.1.1],
{
    let kept = if j < parts.kept@.len() {
        law_selection_keeps_the_order(candidates, flags, true, i, j)
    } else {
        (0, 0)
    };
    let removed = if j < parts.removed@.len() {
        law_selection_keeps_the_order(candidates, flags, false, i, j)
    } else {
        (0, 0)
    };
    (kept, removed)
}

/// What a filter keeps stands in the order in which the candidates came, and so does what
/// it removes. The filter of conversations puts the better in the place of the earlier.
pub proof fn law_filters_keep_the_order(
    filter: PhoenixFilter,
    query: ScoredPostsQuery,
    candidates: Seq<PostCandidate>,
    evidence: PhoenixEvidence,
    i: int,
    j: int,
) -> (places: ((int, int), (int, int)))
    requires
        !(filter is DedupConversation),
        0 <= i < j,
    ensures
        ({
            let parts = parted(filter, query, candidates, evidence);
            &&& j < parts.0.len() ==> 0 <= places.0.0 < places.0.1 < candidates.len()
                && parts.0[i] == candidates[places.0.0] && parts.0[j] == candidates[places.0.1]
            &&& j < parts.1.len() ==> 0 <= places.1.0 < places.1.1 < candidates.len()
                && parts.1[i] == candidates[places.1.0] && parts.1[j] == candidates[places.1.1]
        }),
{
    let parts = parted(filter, query, candidates, evidence);
    let flags = kept_flags(filter, query, candidates, evidence);
    let kept = if j < parts.0.len() {
        law_selection_keeps_the_order(candidates, flags, true, i, j)
    } else {
        (0, 0)
    };
    let removed = if j < parts.1.len() {
        law_selection_keeps_the_order(candidates, flags, false, i, j)
    } else {
        (0, 0)
    };
    (kept, removed)
}

/// Whatever a filter is told, it neither loses nor makes up a candidate.
pub proof fn law_filters_part_the_candidates(
    filter: PhoenixFilter,
    query: ScoredPostsQuery,
    candidates: Seq<PostCandidate>,
    evidence: PhoenixEvidence,
)
    requires
        match (filter, evidence) {
            (PhoenixFilter::Age(_), PhoenixEvidence::Ages(ages)) => ages@.len() == candidates.len(),
            (
                PhoenixFilter::PreviouslySeenPosts(_),
                PhoenixEvidence::Related(related),
            ) => related@.len() == candidates.len(),
            (
                PhoenixFilter::PreviouslyServedPosts(_),
                PhoenixEvidence::RelatedIds(related),
            ) => related@.len() == candidates.len(),
            (PhoenixFilter::MutedKeyword(_), PhoenixEvidence::Matches(matches)) => matches@.len()
                == candidates.len(),
            (PhoenixFilter::Age(_), _) => false,
            (PhoenixFilter::PreviouslySeenPosts(_), _) => false,
            (PhoenixFilter::PreviouslyServedPosts(_), _) => false,
            (PhoenixFilter::MutedKeyword(_), _) => false,
            _ => true,
        },
    ensures
        parted(filter, query, candidates, evidence).0.to_multiset().add(
            parted(filter, query, candidates, evidence).1.to_multiset(),
        ) =~= candidates.to_multiset(),
{
    if filter is DedupConversation {
        lemma_deduplication_is_partition(candidates);
    } else {
        lemma_split_is_partition(candidates, kept_flags(filter, query, candidates, evidence));
    }
}

proof fn lemma_flagged_parts<C>(s: Seq<C>, flags: Seq<bool>)
    requires
        s.len() == flags.len(),
    ensures
        forall|c: C| #[trigger]
            selected(s, flags, true).contains(c) ==> exists|place: int|
                0 <= place < s.len() && flags[place] && #[trigger] s[place] == c,
        forall|c: C| #[trigger]
            selected(s, flags, false).contains(c) ==> exists|place: int|
                0 <= place < s.len() && !flags[place] && #[trigger] s[place] == c,
        forall|place: int|
            0 <= place < s.len() && flags[place] ==> selected(s, flags, true).contains(
                #[trigger] s[place],
            ),
        forall|place: int|
            0 <= place < s.len() && !flags[place] ==> selected(s, flags, false).contains(
                #[trigger] s[place],
            ),
{
    assert forall|c: C| #[trigger] selected(s, flags, true).contains(c) implies exists|place: int|
        0 <= place < s.len() && flags[place] && #[trigger] s[place] == c by {
        let i = selected(s, flags, true).index_of(c);
        let place = law_selection_follows_flags(s, flags, true, i);
        assert(s[place] == c);
    }
    assert forall|c: C| #[trigger] selected(s, flags, false).contains(c) implies exists|place: int|
        0 <= place < s.len() && !flags[place] && #[trigger] s[place] == c by {
        let i = selected(s, flags, false).index_of(c);
        let place = law_selection_follows_flags(s, flags, false, i);
        assert(s[place] == c);
    }
    assert forall|place: int| 0 <= place < s.len() && flags[place] implies selected(
        s,
        flags,
        true,
    ).contains(#[trigger] s[place]) by {
        law_flagged_candidates_are_selected(s, flags, true, place);
    }
    assert forall|place: int| 0 <= place < s.len() && !flags[place] implies selected(
        s,
        flags,
        false,
    ).contains(#[trigger] s[place]) by {
        law_flagged_candidates_are_selected(s, flags, false, place);
    }
}

proof fn lemma_judged_parts(
    candidates: Seq<PostCandidate>,
    keep: spec_fn(PostCandidate) -> bool,
)
    ensures
        ({
            let kept = selected(candidates, kept_where(candidates, keep), true);
            let removed = selected(candidates, kept_where(candidates, keep), false);
            &&& forall|i: int| 0 <= i < kept.len() ==> keep(#[trigger] kept[i])
            &&& forall|i: int| 0 <= i < removed.len() ==> !keep(#[trigger] removed[i])
            &&& forall|place: int|
                0 <= place < candidates.len() && keep(candidates[place]) ==> kept.contains(
                    #[trigger] candidates[place],
                )
            &&& forall|place: int|
                0 <= place < candidates.len() && !keep(candidates[place]) ==> removed.contains(
                    #[trigger] candidates[place],
                )
        }),
{
    let flags = kept_where(candidates, keep);
    lemma_flagged_parts(candidates, flags);
    let kept = selected(candidates, flags, true);
    let removed = selected(candidates, flags, false);
    assert forall|i: int| 0 <= i < kept.len() implies keep(#[trigger] kept[i]) by {
        let place = law_selection_follows_flags(candidates, flags, true, i);
    }
    assert forall|i: int| 0 <= i < removed.len() implies !keep(#[trigger] removed[i]) by {
        let place = law_selection_follows_flags(candidates, flags, false, i);
    }
    assert forall|place: int|
        0 <= place < candidates.len() && keep(candidates[place]) implies kept.contains(
        #[trigger] candidates[place],
    ) by {
        assert(flags[place]);
    }
    assert forall|place: int|
        0 <= place < candidates.len() && !keep(candidates[place]) implies removed.contains(
        #[trigger] candidates[place],
    ) by {
        assert(!flags[place]);
    }
}

/// Every filter of the feed takes part in every request, but for the one of posts
/// that were handed out earlier: it takes part where the reader scrolls on.
pub proof fn law_filters_take_part(filter: PhoenixFilter, query: ScoredPostsQuery)
    ensures
        filter is PreviouslyServedPosts ==> filter.is_enabled(query) == query.is_bottom_request,
        !(filter is PreviouslyServedPosts) ==> filter.is_enabled(query),
        filter matches PhoenixFilter::DropDuplicates(own) ==> own.is_enabled(query),
        filter matches PhoenixFilter::CoreDataHydration(own) ==> own.is_enabled(query),
        filter matches PhoenixFilter::Age(own) ==> own.is_enabled(query),
        filter matches PhoenixFilter::SelfTweet(own) ==> own.is_enabled(query),
        filter matches PhoenixFilter::RetweetDeduplication(own) ==> own.is_enabled(query),
        filter matches PhoenixFilter::IneligibleSubscription(own) ==> own.is_enabled(query),
        filter matches PhoenixFilter::PreviouslySeenPosts(own) ==> own.is_enabled(query),
        filter matches PhoenixFilter::PreviouslyServedPosts(own) ==> own.is_enabled(query)
            == query.is_bottom_request,
        filter matches PhoenixFilter::MutedKeyword(own) ==> own.is_enabled(query),
        filter matches PhoenixFilter::AuthorSocialgraph(own) ==> own.is_enabled(query),
        filter matches PhoenixFilter::Visibility(own) ==> own.is_enabled(query),
        filter matches PhoenixFilter::DedupConversation(own) ==> own.is_enabled(query),
{
}

/// The filters that have to be told something are told it of each candidate; the others
/// work whatever they are told.
pub proof fn law_filters_are_told_something_of_each_candidate(
    filter: PhoenixFilter,
    candidates: Seq<PostCandidate>,
    ages: Vec<Option<u128>>,
    related: Vec<Vec<RelatedPost>>,
    ids: Vec<Vec<i64>>,
    matches: Vec<bool>,
    evidence: PhoenixEvidence,
)
    ensures
        filter is Age ==> (filter.is_evidence(candidates, PhoenixEvidence::Ages(ages)) <==> ages@.len()
            == candidates.len()),
        filter is PreviouslySeenPosts ==> (filter.is_evidence(
            candidates,
            PhoenixEvidence::Related(related),
        ) <==> related@.len() == candidates.len()),
        filter is PreviouslyServedPosts ==> (filter.is_evidence(
            candidates,
            PhoenixEvidence::RelatedIds(ids),
        ) <==> ids@.len() == candidates.len()),
        filter is MutedKeyword ==> (filter.is_evidence(
            candidates,
            PhoenixEvidence::Matches(matches),
        ) <==> matches@.len() == candidates.len()),
        !(filter is Age) && !(filter is PreviouslySeenPosts) && !(filter is PreviouslyServedPosts)
            && !(filter is MutedKeyword) ==> filter.is_evidence(candidates, evidence),
{
}

// What each filter is for.

/// No post of an author whom the reader has blocked or muted is kept, and every post
/// of another author is, whatever else is known about it.
pub proof fn law_blocked_and_muted_authors_are_removed(
    filter: AuthorSocialgraphFilter,
    query: ScoredPostsQuery,
    candidates: Seq<PostCandidate>,
    evidence: PhoenixEvidence,
)
    ensures
        ({
            let parts = parted(PhoenixFilter::AuthorSocialgraph(filter), query, candidates, evidence);
            let blocked = query.user_features.blocked_user_ids@;
            let muted = query.user_features.muted_user_ids@;
            &&& forall|i: int|
                0 <= i < parts.0.len() ==> !blocked.contains(
                    (#[trigger] parts.0[i]).author_id as i64,
                ) && !muted.contains(parts.0[i].author_id as i64)
            &&& forall|i: int|
                0 <= i < parts.1.len() ==> blocked.contains(
                    (#[trigger] parts.1[i]).author_id as i64,
                ) || muted.contains(parts.1[i].author_id as i64)
            &&& forall|place: int|
                0 <= place < candidates.len() && !blocked.contains(
                    candidates[place].author_id as i64,
                ) && !muted.contains(candidates[place].author_id as i64) ==> parts.0.contains(
                    #[trigger] candidates[place],
                )
            &&& forall|place: int|
                0 <= place < candidates.len() && (blocked.contains(
                    candidates[place].author_id as i64,
                ) || muted.contains(candidates[place].author_id as i64)) ==> parts.1.contains(
                    #[trigger] candidates[place],
                )
        }),
{
    lemma_judged_parts(candidates, |c: PostCandidate| is_welcome(query, c));
}

/// The reader's own posts are removed, and no others.
pub proof fn law_only_own_posts_are_removed(
    filter: SelfTweetFilter,
    query: ScoredPostsQuery,
    candidates: Seq<PostCandidate>,
    evidence: PhoenixEvidence,
)
    ensures
        ({
            let parts = parted(PhoenixFilter::SelfTweet(filter), query, candidates, evidence);
            &&& forall|i: int|
                0 <= i < parts.0.len() ==> (#[trigger] parts.0[i]).author_id
                    != query.user_id as u64
            &&& forall|i: int|
                0 <= i < parts.1.len() ==> (#[trigger] parts.1[i]).author_id
                    == query.user_id as u64
            &&& forall|place: int|
                0 <= place < candidates.len() && candidates[place].author_id
                    != query.user_id as u64 ==> parts.0.contains(#[trigger] candidates[place])
            &&& forall|place: int|
                0 <= place < candidates.len() && candidates[place].author_id
                    == query.user_id as u64 ==> parts.1.contains(#[trigger] candidates[place])
        }),
{
    lemma_judged_parts(candidates, |c: PostCandidate| is_by_another(query, c));
}

/// A post for the subscribers of an author is kept exactly for those whose list of
/// subscriptions names that author; a post for everyone is kept.
pub proof fn law_posts_for_subscribers_are_for_subscribers(
    filter: IneligibleSubscriptionFilter,
    query: ScoredPostsQuery,
    candidates: Seq<PostCandidate>,
    evidence: PhoenixEvidence,
    place: int,
)
    requires
        0 <= place < candidates.len(),
    ensures
        ({
            let parts = parted(
                PhoenixFilter::IneligibleSubscription(filter),
                query,
                candidates,
                evidence,
            );
            let subscriptions = query.user_features.subscribed_user_ids@;
            let candidate = candidates[place];
            &&& candidate.subscription_author_id is None ==> parts.0.contains(candidate)
                && !parts.1.contains(candidate)
            &&& candidate.subscription_author_id matches Some(author) ==> {
                &&& (exists|n: int| 0 <= n < subscriptions.len() && #[trigger] subscriptions[n] as u64
                    == author) ==> parts.0.contains(candidate) && !parts.1.contains(candidate)
                &&& (forall|n: int|
                    0 <= n < subscriptions.len() ==> #[trigger] subscriptions[n] as u64 != author)
                    ==> parts.1.contains(candidate) && !parts.0.contains(candidate)
            }
        }),
{
    let keep = |c: PostCandidate| is_readable(query, c);
    lemma_judged_parts(candidates, keep);
    let parts = parted(PhoenixFilter::IneligibleSubscription(filter), query, candidates, evidence);
    let subscriptions = query.user_features.subscribed_user_ids@;
    let converted = subscriptions.map_values(|id: i64| id as u64);
    let candidate = candidates[place];
    if let Some(author) = candidate.subscription_author_id {
        if exists|n: int| 0 <= n < subscriptions.len() && #[trigger] subscriptions[n] as u64
            == author {
            let n = choose|n: int|
                0 <= n < subscriptions.len() && #[trigger] subscriptions[n] as u64 == author;
            assert(converted[n] == author);
            assert(subscribed(query).contains(author));
        }
        if subscribed(query).contains(author) {
            let n = choose|n: int| 0 <= n < converted.len() && converted[n] == author;
            assert(subscriptions[n] as u64 == author);
        }
    }
    assert(keep(candidate) ==> parts.0.contains(candidate));
    assert(!keep(candidate) ==> parts.1.contains(candidate));
    if parts.0.contains(candidate) {
        let i = choose|i: int| 0 <= i < parts.0.len() && parts.0[i] == candidate;
        assert(keep(parts.0[i]));
    }
    if parts.1.contains(candidate) {
        let i = choose|i: int| 0 <= i < parts.1.len() && parts.1[i] == candidate;
        assert(!keep(parts.1[i]));
    }
}

/// A post is kept exactly if its author is known and its text has a character that
/// is not white space.
pub proof fn law_posts_without_author_or_text_are_removed(
    filter: CoreDataHydrationFilter,
    query: ScoredPostsQuery,
    candidates: Seq<PostCandidate>,
    evidence: PhoenixEvidence,
    place: int,
)
    requires
        0 <= place < candidates.len(),
    ensures
        ({
            let parts = parted(
                PhoenixFilter::CoreDataHydration(filter),
                query,
                candidates,
                evidence,
            );
            let candidate = candidates[place];
            let text = candidate.tweet_text@;
            &&& candidate.author_id == 0 ==> parts.1.contains(candidate) && !parts.0.contains(
                candidate,
            )
            &&& (forall|n: int| 0 <= n < text.len() ==> is_white_space(#[trigger] text[n]))
                ==> parts.1.contains(candidate) && !parts.0.contains(candidate)
            &&& candidate.author_id != 0 && (exists|n: int|
                0 <= n < text.len() && !is_white_space(#[trigger] text[n])) ==> parts.0.contains(
                candidate,
            ) && !parts.1.contains(candidate)
        }),
{
    let keep = |c: PostCandidate| has_core_data(c);
    lemma_judged_parts(candidates, keep);
    let parts = parted(PhoenixFilter::CoreDataHydration(filter), query, candidates, evidence);
    let candidate = candidates[place];
    let text = candidate.tweet_text@;
    if exists|n: int| 0 <= n < text.len() && !is_white_space(#[trigger] text[n]) {
        let n = choose|n: int| 0 <= n < text.len() && !is_white_space(#[trigger] text[n]);
        assert(!is_blank_text(text));
    }
    assert(keep(candidate) ==> parts.0.contains(candidate));
    assert(!keep(candidate) ==> parts.1.contains(candidate));
    if parts.0.contains(candidate) {
        let i = choose|i: int| 0 <= i < parts.0.len() && parts.0[i] == candidate;
        assert(keep(parts.0[i]));
    }
    if parts.1.contains(candidate) {
        let i = choose|i: int| 0 <= i < parts.1.len() && parts.1[i] == candidate;
        assert(!keep(parts.1[i]));
    }
}

/// A post is kept exactly if nothing speaks against showing it, or only a safety
/// rule that does not drop it.
pub proof fn law_posts_that_must_not_be_shown_are_removed(
    filter: VFFilter,
    query: ScoredPostsQuery,
    candidates: Seq<PostCandidate>,
    evidence: PhoenixEvidence,
    place: int,
)
    requires
        0 <= place < candidates.len(),
    ensures
        ({
            let parts = parted(PhoenixFilter::Visibility(filter), query, candidates, evidence);
            let candidate = candidates[place];
            match candidate.visibility_reason {
                None => parts.0.contains(candidate) && !parts.1.contains(candidate),
                Some(FilteredReason::Other(_)) => parts.1.contains(candidate) && !parts.0.contains(
                    candidate,
                ),
                Some(FilteredReason::SafetyResult(result)) => match result.action {
                    Action::Drop(_) => parts.1.contains(candidate) && !parts.0.contains(candidate),
                    Action::Other(_) => parts.0.contains(candidate) && !parts.1.contains(candidate),
                },
            }
        }),
{
    let keep = |c: PostCandidate| is_visible(c);
    lemma_judged_parts(candidates, keep);
    let parts = parted(PhoenixFilter::Visibility(filter), query, candidates, evidence);
    let candidate = candidates[place];
    assert(keep(candidate) ==> parts.0.contains(candidate));
    assert(!keep(candidate) ==> parts.1.contains(candidate));
    if parts.0.contains(candidate) {
        let i = choose|i: int| 0 <= i < parts.0.len() && parts.0[i] == candidate;
        assert(keep(parts.0[i]));
    }
    if parts.1.contains(candidate) {
        let i = choose|i: int| 0 <= i < parts.1.len() && parts.1[i] == candidate;
        assert(!keep(parts.1[i]));
    }
}

/// A post is kept exactly if its age is known and is at most the greatest that is
/// allowed.
pub proof fn law_only_young_posts_are_kept(
    filter: AgeFilter,
    query: ScoredPostsQuery,
    candidates: Seq<PostCandidate>,
    ages: Vec<Option<u128>>,
)
    requires
        ages@.len() == candidates.len(),
    ensures
        ({
            let parts = parted(
                PhoenixFilter::Age(filter),
                query,
                candidates,
                PhoenixEvidence::Ages(ages),
            );
            &&& forall|place: int|
                #![trigger candidates[place]]
                0 <= place < candidates.len() && ages@[place] is Some && ages@[place]->0
                    <= filter.max_age ==> parts.0.contains(candidates[place])
            &&& forall|place: int|
                #![trigger candidates[place]]
                0 <= place < candidates.len() && (ages@[place] is None || ages@[place]->0
                    > filter.max_age) ==> parts.1.contains(candidates[place])
            &&& forall|c: PostCandidate| #[trigger]
                parts.0.contains(c) ==> exists|place: int|
                    0 <= place < candidates.len() && ages@[place] is Some && ages@[place]->0
                        <= filter.max_age && #[trigger] candidates[place] == c
            &&& forall|c: PostCandidate| #[trigger]
                parts.1.contains(c) ==> exists|place: int|
                    0 <= place < candidates.len() && (ages@[place] is None || ages@[place]->0
                        > filter.max_age) && #[trigger] candidates[place] == c
        }),
{
    let evidence = PhoenixEvidence::Ages(ages);
    let flags = kept_flags(PhoenixFilter::Age(filter), query, candidates, evidence);
    let parts = parted(PhoenixFilter::Age(filter), query, candidates, evidence);
    lemma_flagged_parts(candidates, flags);
    assert forall|place: int| 0 <= place < candidates.len() implies #[trigger] flags[place] == (
    ages@[place] is Some && ages@[place]->0 <= filter.max_age) by {}
    assert forall|c: PostCandidate| #[trigger] parts.0.contains(c) implies exists|place: int|
        0 <= place < candidates.len() && ages@[place] is Some && ages@[place]->0 <= filter.max_age
            && #[trigger] candidates[place] == c by {
        let place = choose|place: int|
            0 <= place < candidates.len() && flags[place] && #[trigger] candidates[place] == c;
        assert(flags[place]);
    }
    assert forall|c: PostCandidate| #[trigger] parts.1.contains(c) implies exists|place: int|
        0 <= place < candidates.len() && (ages@[place] is None || ages@[place]->0
            > filter.max_age) && #[trigger] candidates[place] == c by {
        let place = choose|place: int|
            0 <= place < candidates.len() && !flags[place] && #[trigger] candidates[place] == c;
        assert(!flags[place]);
    }
}

/// A post is kept exactly if none of the posts that it shows or belongs to is named
/// as seen or may be held by a filter of seen posts.
pub proof fn law_seen_posts_are_removed(
    filter: PreviouslySeenPostsFilter,
    query: ScoredPostsQuery,
    candidates: Seq<PostCandidate>,
    related: Vec<Vec<RelatedPost>>,
)
    requires
        related@.len() == candidates.len(),
    ensures
        ({
            let parts = parted(
                PhoenixFilter::PreviouslySeenPosts(filter),
                query,
                candidates,
                PhoenixEvidence::Related(related),
            );
            &&& forall|place: int, n: int|
                #![trigger related@[place]@[n]]
                0 <= place < candidates.len() && 0 <= n < related@[place]@.len() && (
                related@[place]@[n].may_be_seen || query.seen_ids@.contains(
                    related@[place]@[n].post_id,
                )) ==> parts.1.contains(candidates[place])
            &&& forall|place: int|
                #![trigger candidates[place]]
                0 <= place < candidates.len() && (forall|n: int|
                    0 <= n < related@[place]@.len() ==> !(
                    #[trigger] related@[place]@[n]).may_be_seen && !query.seen_ids@.contains(
                        related@[place]@[n].post_id,
                    )) ==> parts.0.contains(candidates[place])
            &&& forall|c: PostCandidate| #[trigger]
                parts.0.contains(c) ==> exists|place: int|
                    0 <= place < candidates.len() && #[trigger] candidates[place] == c
                        && forall|n: int|
                        0 <= n < related@[place]@.len() ==> !(
                        #[trigger] related@[place]@[n]).may_be_seen && !query.seen_ids@.contains(
                            related@[place]@[n].post_id,
                        )
        }),
{
    let evidence = PhoenixEvidence::Related(related);
    let flags = kept_flags(PhoenixFilter::PreviouslySeenPosts(filter), query, candidates, evidence);
    let parts = parted(PhoenixFilter::PreviouslySeenPosts(filter), query, candidates, evidence);
    lemma_flagged_parts(candidates, flags);
    assert forall|place: int| 0 <= place < candidates.len() implies #[trigger] flags[place]
        == is_unseen(query, related@[place]@) by {}
    assert forall|place: int, n: int|
        #![trigger related@[place]@[n]]
        0 <= place < candidates.len() && 0 <= n < related@[place]@.len() && (
        related@[place]@[n].may_be_seen || query.seen_ids@.contains(
            related@[place]@[n].post_id,
        )) implies parts.1.contains(candidates[place]) by {
        assert(is_seen(query, related@[place]@[n]));
        assert(!flags[place]);
    }
    assert forall|place: int|
        #![trigger candidates[place]]
        0 <= place < candidates.len() && (forall|n: int|
            0 <= n < related@[place]@.len() ==> !(#[trigger] related@[place]@[n]).may_be_seen
                && !query.seen_ids@.contains(related@[place]@[n].post_id)) implies parts.0.contains(
        candidates[place],
    ) by {
        assert(flags[place]);
    }
    assert forall|c: PostCandidate| #[trigger] parts.0.contains(c) implies exists|place: int|
        0 <= place < candidates.len() && #[trigger] candidates[place] == c && forall|
            n: int,
        |
            0 <= n < related@[place]@.len() ==> !(#[trigger] related@[place]@[n]).may_be_seen
                && !query.seen_ids@.contains(related@[place]@[n].post_id) by {
        let place = choose|place: int|
            0 <= place < candidates.len() && flags[place] && #[trigger] candidates[place] == c;
        assert(flags[place]);
        assert forall|n: int| 0 <= n < related@[place]@.len() implies !(
        #[trigger] related@[place]@[n]).may_be_seen && !query.seen_ids@.contains(
            related@[place]@[n].post_id,
        ) by {
            assert(!is_seen(query, related@[place]@[n]));
        }
    }
}

/// A post is kept exactly if none of the posts that it shows or belongs to was
/// handed out earlier.
pub proof fn law_served_posts_are_removed(
    filter: PreviouslyServedPostsFilter,
    query: ScoredPostsQuery,
    candidates: Seq<PostCandidate>,
    related: Vec<Vec<i64>>,
)
    requires
        related@.len() == candidates.len(),
    ensures
        ({
            let parts = parted(
                PhoenixFilter::PreviouslyServedPosts(filter),
                query,
                candidates,
                PhoenixEvidence::RelatedIds(related),
            );
            &&& forall|place: int, n: int|
                #![trigger related@[place]@[n]]
                0 <= place < candidates.len() && 0 <= n < related@[place]@.len()
                    && query.served_ids@.contains(related@[place]@[n]) ==> parts.1.contains(
                    candidates[place],
                )
            &&& forall|place: int|
                #![trigger candidates[place]]
                0 <= place < candidates.len() && (forall|n: int|
                    0 <= n < related@[place]@.len() ==> !query.served_ids@.contains(
                        #[trigger] related@[place]@[n],
                    )) ==> parts.0.contains(candidates[place])
            &&& forall|c: PostCandidate| #[trigger]
                parts.0.contains(c) ==> exists|place: int|
                    0 <= place < candidates.len() && #[trigger] candidates[place] == c
                        && forall|n: int|
                        0 <= n < related@[place]@.len() ==> !query.served_ids@.contains(
                            #[trigger] related@[place]@[n],
                        )
        }),
{
    let evidence = PhoenixEvidence::RelatedIds(related);
    let flags = kept_flags(
        PhoenixFilter::PreviouslyServedPosts(filter),
        query,
        candidates,
        evidence,
    );
    let parts = parted(PhoenixFilter::PreviouslyServedPosts(filter), query, candidates, evidence);
    lemma_flagged_parts(candidates, flags);
    assert forall|place: int| 0 <= place < candidates.len() implies #[trigger] flags[place]
        == is_unserved(query, related@[place]@) by {}
    assert forall|place: int, n: int|
        #![trigger related@[place]@[n]]
        0 <= place < candidates.len() && 0 <= n < related@[place]@.len()
            && query.served_ids@.contains(related@[place]@[n]) implies parts.1.contains(
        candidates[place],
    ) by {
        assert(!flags[place]);
    }
    assert forall|place: int|
        #![trigger candidates[place]]
        0 <= place < candidates.len() && (forall|n: int|
            0 <= n < related@[place]@.len() ==> !query.served_ids@.contains(
                #[trigger] related@[place]@[n],
            )) implies parts.0.contains(candidates[place]) by {
        assert(flags[place]);
    }
    assert forall|c: PostCandidate| #[trigger] parts.0.contains(c) implies exists|place: int|
        0 <= place < candidates.len() && #[trigger] candidates[place] == c && forall|
            n: int,
        |
            0 <= n < related@[place]@.len() ==> !query.served_ids@.contains(
                #[trigger] related@[place]@[n],
            ) by {
        let place = choose|place: int|
            0 <= place < candidates.len() && flags[place] && #[trigger] candidates[place] == c;
        assert(flags[place]);
    }
}

/// Where the reader mutes no keyword every post is kept; else exactly those are
/// kept whose text matches none.
pub proof fn law_posts_with_muted_keywords_are_removed(
    filter: MutedKeywordFilter,
    query: ScoredPostsQuery,
    candidates: Seq<PostCandidate>,
    matches: Vec<bool>,
)
    requires
        matches@.len() == candidates.len(),
    ensures
        ({
            let parts = parted(
                PhoenixFilter::MutedKeyword(filter),
                query,
                candidates,
                PhoenixEvidence::Matches(matches),
            );
            &&& query.user_features.muted_keywords@.len() == 0 ==> parts.0 == candidates
                && parts.1.len() == 0
            &&& forall|place: int|
                #![trigger candidates[place]]
                0 <= place < candidates.len() && !matches@[place] ==> parts.0.contains(
                    candidates[place],
                )
            &&& forall|place: int|
                #![trigger candidates[place]]
                0 <= place < candidates.len() && matches@[place]
                    && query.user_features.muted_keywords@.len() > 0 ==> parts.1.contains(
                    candidates[place],
                )
            &&& query.user_features.muted_keywords@.len() > 0 ==> forall|c: PostCandidate| #[trigger]
                parts.0.contains(c) ==> exists|place: int|
                    0 <= place < candidates.len() && !matches@[place] && #[trigger] candidates[place]
                        == c
        }),
{
    let evidence = PhoenixEvidence::Matches(matches);
    let flags = kept_flags(PhoenixFilter::MutedKeyword(filter), query, candidates, evidence);
    let parts = parted(PhoenixFilter::MutedKeyword(filter), query, candidates, evidence);
    lemma_flagged_parts(candidates, flags);
    assert(flags == unmuted(query, matches@));
    assert forall|place: int| 0 <= place < candidates.len() implies #[trigger] flags[place] == (
    query.user_features.muted_keywords@.len() == 0 || !matches@[place]) by {}
    assert forall|c: PostCandidate| #[trigger] parts.0.contains(c) implies exists|place: int|
        0 <= place < candidates.len() && flags[place] && #[trigger] candidates[place]
            == c by {
        let place = choose|place: int|
            0 <= place < candidates.len() && flags[place] && #[trigger] candidates[place] == c;
        assert(flags[place]);
    }
    if query.user_features.muted_keywords@.len() == 0 {
        lemma_all_kept(candidates, flags);
    }
}

proof fn lemma_all_kept<C>(s: Seq<C>, flags: Seq<bool>)
    requires
        flags.len() == s.len(),
        forall|i: int| 0 <= i < flags.len() ==> #[trigger] flags[i],
    ensures
        selected(s, flags, true) == s,
        selected(s, flags, false).len() == 0,
    decreases s.len(),
{
    if s.len() > 0 {
        assert(flags[s.len() - 1]);
        lemma_all_kept(s.drop_last(), flags.drop_last());
        assert(s.drop_last().push(s.last()) =~= s);
    } else {
        assert(selected(s, flags, true) =~= s);
    }
}

/// Of the candidates of a post exactly the first is kept.
pub proof fn law_the_first_of_each_post_is_kept(
    filter: DropDuplicatesFilter,
    query: ScoredPostsQuery,
    candidates: Seq<PostCandidate>,
    evidence: PhoenixEvidence,
)
    ensures
        ({
            let parts = parted(PhoenixFilter::DropDuplicates(filter), query, candidates, evidence);
            &&& forall|i: int, j: int|
                0 <= i < j < parts.0.len() ==> (#[trigger] parts.0[i]).tweet_id != (
                #[trigger] parts.0[j]).tweet_id
            &&& forall|place: int|
                #![trigger candidates[place]]
                0 <= place < candidates.len() && (forall|n: int|
                    0 <= n < place ==> (#[trigger] candidates[n]).tweet_id
                        != candidates[place].tweet_id) ==> parts.0.contains(candidates[place])
            &&& forall|n: int, place: int|
                #![trigger candidates[n], candidates[place]]
                0 <= n < place < candidates.len() && candidates[n].tweet_id
                    == candidates[place].tweet_id ==> parts.1.contains(candidates[place])
            &&& parts.0.len() + parts.1.len() == candidates.len()
        }),
{
    let key = |c: PostCandidate| post_key(c);
    let keys = candidates.map_values(key);
    let flags = first_occurrences(keys);
    let parts = parted(PhoenixFilter::DropDuplicates(filter), query, candidates, evidence);
    lemma_flagged_parts(candidates, flags);
    lemma_split_is_partition(candidates, flags);
    assert forall|i: int, j: int| 0 <= i < j < parts.0.len() implies (
    #[trigger] parts.0[i]).tweet_id != (#[trigger] parts.0[j]).tweet_id by {
        let places = law_selection_keeps_the_order(candidates, flags, true, i, j);
        assert(keys[places.0] != keys[places.1]);
    }
    assert forall|place: int|
        #![trigger candidates[place]]
        0 <= place < candidates.len() && (forall|n: int|
            0 <= n < place ==> (#[trigger] candidates[n]).tweet_id
                != candidates[place].tweet_id) implies parts.0.contains(candidates[place]) by {
        assert forall|n: int| 0 <= n < place implies #[trigger] keys[n] != keys[place] by {
            assert(candidates[n].tweet_id != candidates[place].tweet_id);
        }
        assert(flags[place]);
    }
    assert forall|n: int, place: int|
        #![trigger candidates[n], candidates[place]]
        0 <= n < place < candidates.len() && candidates[n].tweet_id
            == candidates[place].tweet_id implies parts.1.contains(candidates[place]) by {
        assert(keys[n] == keys[place]);
        assert(!flags[place]);
    }
}

/// Of the candidates that show the same content, as the post itself or as a
/// retweet of it, exactly the first is kept.
pub proof fn law_the_first_of_each_content_is_kept(
    filter: RetweetDeduplicationFilter,
    query: ScoredPostsQuery,
    candidates: Seq<PostCandidate>,
    evidence: PhoenixEvidence,
    n: int,
    place: int,
)
    requires
        0 <= n < place < candidates.len(),
    ensures
        ({
            let parts = parted(
                PhoenixFilter::RetweetDeduplication(filter),
                query,
                candidates,
                evidence,
            );
            let earlier = candidates[n];
            let later = candidates[place];
            let first = candidates[0];
            &&& parts.0.len() + parts.1.len() == candidates.len()
            &&& parts.0.contains(first)
            &&& later.retweeted_tweet_id is Some && earlier.retweeted_tweet_id
                == later.retweeted_tweet_id ==> parts.1.contains(later)
            &&& later.retweeted_tweet_id is None && earlier.retweeted_tweet_id is None
                && earlier.tweet_id as u64 == later.tweet_id as u64 ==> parts.1.contains(later)
            &&& later.retweeted_tweet_id is None && earlier.retweeted_tweet_id == Some(
                later.tweet_id as u64,
            ) ==> parts.1.contains(later)
            &&& later.retweeted_tweet_id == Some(earlier.tweet_id as u64)
                && earlier.retweeted_tweet_id is None ==> parts.1.contains(later)
        }),
{
    let key = |c: PostCandidate| content_key(c);
    let keys = candidates.map_values(key);
    let flags = first_occurrences(keys);
    lemma_flagged_parts(candidates, flags);
    lemma_split_is_partition(candidates, flags);
    assert(flags[0]);
    if keys[n] == keys[place] {
        assert(!flags[place]);
    }
}

/// A candidate that shows the content of none before it is kept.
pub proof fn law_new_content_is_kept(
    filter: RetweetDeduplicationFilter,
    query: ScoredPostsQuery,
    candidates: Seq<PostCandidate>,
    evidence: PhoenixEvidence,
    place: int,
)
    requires
        0 <= place < candidates.len(),
        candidates[place].retweeted_tweet_id matches Some(shown) ==> forall|n: int|
            0 <= n < place ==> (match (#[trigger] candidates[n]).retweeted_tweet_id {
                Some(other) => other != shown,
                None => candidates[n].tweet_id as u64 != shown,
            }),
        candidates[place].retweeted_tweet_id is None ==> forall|n: int|
            0 <= n < place ==> (match (#[trigger] candidates[n]).retweeted_tweet_id {
                Some(other) => other != candidates[place].tweet_id as u64,
                None => candidates[n].tweet_id as u64 != candidates[place].tweet_id as u64,
            }),
    ensures
        parted(PhoenixFilter::RetweetDeduplication(filter), query, candidates, evidence).0.contains(
            candidates[place],
        ),
{
    let key = |c: PostCandidate| content_key(c);
    let keys = candidates.map_values(key);
    let flags = first_occurrences(keys);
    lemma_flagged_parts(candidates, flags);
    assert forall|n: int| 0 <= n < place implies #[trigger] keys[n] != keys[place] by {
        assert(candidates[n] == candidates[n]);
    }
    assert(flags[place]);
}

/// The conversation of a candidate is the least of the posts above it, or the
/// candidate's own post where there is none above it.
pub proof fn law_conversations_are_named_by_their_oldest_post(candidate: PostCandidate)
    ensures
        candidate.ancestors@.len() == 0 ==> conversation_of(candidate)
            == candidate.tweet_id as u64,
        candidate.ancestors@.len() > 0 ==> candidate.ancestors@.contains(
            conversation_of(candidate),
        ),
        forall|n: int|
            0 <= n < candidate.ancestors@.len() ==> conversation_of(candidate)
                <= #[trigger] candidate.ancestors@[n],
{
    if candidate.ancestors@.len() > 0 {
        lemma_least(candidate.ancestors@);
    }
}

proof fn lemma_least(ids: Seq<u64>)
    requires
        ids.len() > 0,
    ensures
        ids.contains(least(ids)),
        forall|n: int|
            0 <= n < ids.len()
                ==> least(ids)
                <= #[trigger] ids[n],
    decreases ids.len(),
{
    let lowest = least(ids);
    if ids.len() == 1 {
        assert(ids[0] == lowest);
    } else {
        let front = ids.drop_last();
        lemma_least(front);
        let before = least(front);
        let k = choose|k: int| 0 <= k < front.len() && front[k] == before;
        assert(ids[k] == before);
        assert(ids[ids.len() - 1] == ids.last());
        assert forall|n: int| 0 <= n < ids.len() implies lowest <= #[trigger] ids[n] by {
            if n < front.len() {
                assert(front[n] == ids[n]);
            }
        }
    }
}

/// One candidate more: if none of its conversation was kept it is kept behind the others.
/// Else it takes the place of the one that was kept if it has the greater score, and that
/// one is removed; otherwise it is removed itself. A score that is missing counts as zero.
pub proof fn law_better_candidates_take_the_place(
    filter: DedupConversationFilter,
    query: ScoredPostsQuery,
    earlier: Seq<PostCandidate>,
    candidate: PostCandidate,
    evidence: PhoenixEvidence,
    slot: int,
)
    ensures
        ({
            let dedup = PhoenixFilter::DedupConversation(filter);
            let before = parted(dedup, query, earlier, evidence);
            let after = parted(dedup, query, earlier.push(candidate), evidence);
            let number = |c: PostCandidate|
                match c.score {
                    Some(score) => score,
                    None => Score { bits: 0 },
                };
            &&& (forall|n: int|
                0 <= n < before.0.len() ==> conversation_of(#[trigger] before.0[n])
                    != conversation_of(candidate)) ==> after.0 == before.0.push(candidate)
                && after.1 == before.1
            &&& 0 <= slot < before.0.len() && conversation_of(before.0[slot]) == conversation_of(
                candidate,
            ) ==> {
                if number(candidate).exceeds(number(before.0[slot])) {
                    after.0 == before.0.update(slot, candidate) && after.1 == before.1.push(
                        before.0[slot],
                    )
                } else {
                    after.0 == before.0 && after.1 == before.1.push(candidate)
                }
            }
            &&& parted(dedup, query, Seq::empty(), evidence).0.len() == 0
            &&& parted(dedup, query, Seq::empty(), evidence).1.len() == 0
        }),
{
    let kept = deduplicated(earlier).0;
    let id = conversation_of(candidate);
    assert(earlier.push(candidate).drop_last() =~= earlier);
    law_conversations_are_kept_once(earlier);
    if 0 <= slot < kept.len() && conversation_of(kept[slot]) == id {
        assert(is_slot(kept, id, slot));
        let chosen = choose|chosen: int| is_slot(kept, id, chosen);
        assert(chosen == slot);
    }
    if forall|n: int|
        0 <= n < kept.len() ==> conversation_of(#[trigger] kept[n]) != conversation_of(candidate) {
        assert forall|n: int| !is_slot(kept, id, n) by {}
    }
}

/// Of every conversation one candidate is kept, in the place of its first; a score
/// that is missing counts as zero.
pub proof fn law_one_candidate_of_each_conversation_is_kept(
    filter: DedupConversationFilter,
    query: ScoredPostsQuery,
    candidates: Seq<PostCandidate>,
    evidence: PhoenixEvidence,
    i: int,
    j: int,
)
    requires
        0 <= i < j < candidates.len(),
        forall|n: int|
            0 <= n < candidates.len() ==> ((#[trigger] candidates[n]).score matches Some(score)
                ==> !score.is_nan()),
    ensures
        ({
            let parts = parted(
                PhoenixFilter::DedupConversation(filter),
                query,
                candidates,
                evidence,
            );
            &&& parts.0.len() + parts.1.len() == candidates.len()
            // Candidates that stand alone are both kept.
            &&& candidates.len() == 2 && conversation_of(candidates[i]) != conversation_of(
                candidates[j],
            ) ==> parts.0 == candidates
            // Of two of one conversation the better is kept, the first where none is.
            &&& candidates.len() == 2 && conversation_of(candidates[i]) == conversation_of(
                candidates[j],
            ) ==> {
                let later_is_better = match (candidates[i].score, candidates[j].score) {
                    (Some(a), Some(b)) => b.exceeds(a),
                    (Some(a), None) => a.rank() < 0,
                    (None, Some(b)) => b.rank() > 0,
                    (None, None) => false,
                };
                if later_is_better {
                    parts.0 == seq![candidates[j]] && parts.1 == seq![candidates[i]]
                } else {
                    parts.0 == seq![candidates[i]] && parts.1 == seq![candidates[j]]
                }
            }
        }),
{
    broadcast use vstd::seq_lib::group_to_multiset_ensures;

    lemma_deduplication_is_partition(candidates);
    let parts = deduplicated(candidates);
    assert(parts.0.to_multiset().add(parts.1.to_multiset()).len() == candidates.to_multiset().len());
    if candidates.len() == 2 {
        let kept = parts.0;
        law_conversations_keep_their_order(candidates);
        law_conversations_are_kept_once(candidates);
        let id_of = |c: PostCandidate| conversation_of(c);
        let ids = candidates.map_values(id_of);
        let front = candidates.drop_last();
        assert(front.drop_last() =~= Seq::empty());
        reveal_with_fuel(deduplicated, 3);
        assert(deduplicated(front).0 =~= seq![candidates[0]]);
        assert(deduplicated(front).1 =~= Seq::<PostCandidate>::empty());
        let before = seq![candidates[0]];
        if conversation_of(candidates[0]) == conversation_of(candidates[1]) {
            assert(is_slot(
                before,
                conversation_of(candidates[1]),
                0,
            ));
            let slot = choose|slot: int|
                is_slot(
                    before,
                    conversation_of(candidates[1]),
                    slot,
                );
            assert(slot == 0);
            assert(score_of(candidates[0]).rank() == match candidates[0].score {
                Some(score) => score.rank(),
                None => 0,
            });
            assert(score_of(candidates[1]).rank() == match candidates[1].score {
                Some(score) => score.rank(),
                None => 0,
            });
            assert(before.update(0, candidates[1]) =~= seq![candidates[1]]);
            assert(Seq::<PostCandidate>::empty().push(candidates[0]) =~= seq![candidates[0]]);
            assert(Seq::<PostCandidate>::empty().push(candidates[1]) =~= seq![candidates[1]]);
        } else {
            assert forall|slot: int|
                !is_slot(
                    before,
                    conversation_of(candidates[1]),
                    slot,
                ) by {}
            assert(before.push(candidates[1]) =~= candidates);
        }
    }
}

} // verus!
