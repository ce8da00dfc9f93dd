//! What holds of the candidates that the filters of the feed keep and remove.

use vstd::prelude::*;

use crate::candidate_pipeline::filter::selected;
use crate::home_mixer::candidate::PostCandidate;
use crate::home_mixer::filters::age_filter::AgeFilter;
use crate::home_mixer::filters::common::{first_occurrences, is_first_occurrence, kept_where};
use crate::home_mixer::filters::dedup_conversation_filter::{
    deduplicated, is_unique, law_conversations_are_kept_once,
};
use crate::home_mixer::filters::drop_duplicates_filter::post_key;
use crate::home_mixer::filters::ineligible_subscription_filter::{is_readable, subscribed};
use crate::home_mixer::filters::retweet_deduplication_filter::content_key;
use crate::home_mixer::filters::self_tweet_filter::is_by_another;
use crate::home_mixer::filters::vf_filter::{is_visible, must_drop};
use crate::home_mixer::query::ScoredPostsQuery;

verus! {

/// What is selected stands among the candidates, at a place that is flagged for
/// it, and in the order of the candidates.
pub proof fn law_selection_follows_flags<C>(
    s: Seq<C>,
    flags: Seq<bool>,
    wanted: bool,
    i: int,
) -> (place: int)
    requires
        s.len() == flags.len(),
        0 <= i < selected(s, flags, wanted).len(),
    ensures
        0 <= place < s.len(),
        flags[place] == wanted,
        selected(s, flags, wanted)[i] == s[place],
    decreases s.len(),
{
    let front = s.drop_last();
    let before = selected(front, flags.drop_last(), wanted);
    if i < before.len() {
        let place = law_selection_follows_flags(front, flags.drop_last(), wanted, i);
        assert(s[place] == front[place]);
        assert(flags[place] == flags.drop_last()[place]);
        place
    } else {
        s.len() - 1
    }
}

/// What is flagged is selected.
pub proof fn law_flagged_candidates_are_selected<C>(
    s: Seq<C>,
    flags: Seq<bool>,
    wanted: bool,
    place: int,
)
    requires
        s.len() == flags.len(),
        0 <= place < s.len(),
        flags[place] == wanted,
    ensures
        selected(s, flags, wanted).contains(s[place]),
    decreases s.len(),
{
    let front = s.drop_last();
    let before = selected(front, flags.drop_last(), wanted);
    let all = selected(s, flags, wanted);
    if place < front.len() {
        assert(flags.drop_last()[place] == wanted);
        law_flagged_candidates_are_selected(front, flags.drop_last(), wanted, place);
        let k = choose|k: int| 0 <= k < before.len() && before[k] == front[place];
        assert(all[k] == s[place]);
    } else {
        assert(all[all.len() - 1] == s[place]);
    }
}

/// A filter that asks the same of every candidate keeps those that pass and
/// removes those that do not.
pub proof fn law_kept_candidates_pass(
    candidates: Seq<PostCandidate>,
    keep: spec_fn(PostCandidate) -> bool,
    candidate: PostCandidate,
)
    ensures
        selected(candidates, kept_where(candidates, keep), true).contains(candidate)
            <==> candidates.contains(candidate) && keep(candidate),
        selected(candidates, kept_where(candidates, keep), false).contains(candidate)
            <==> candidates.contains(candidate) && !keep(candidate),
{
    let flags = kept_where(candidates, keep);
    let kept = selected(candidates, flags, true);
    let removed = selected(candidates, flags, false);
    if kept.contains(candidate) {
        let i = choose|i: int| 0 <= i < kept.len() && kept[i] == candidate;
        let place = law_selection_follows_flags(candidates, flags, true, i);
        assert(candidates[place] == candidate);
    }
    if removed.contains(candidate) {
        let i = choose|i: int| 0 <= i < removed.len() && removed[i] == candidate;
        let place = law_selection_follows_flags(candidates, flags, false, i);
        assert(candidates[place] == candidate);
    }
    if candidates.contains(candidate) {
        let place = choose|place: int|
            0 <= place < candidates.len() && candidates[place] == candidate;
        law_flagged_candidates_are_selected(candidates, flags, keep(candidate), place);
    }
}

/// No answer shows the reader's own posts.
pub proof fn law_own_posts_are_removed(
    query: ScoredPostsQuery,
    candidates: Seq<PostCandidate>,
    candidate: PostCandidate,
)
    requires
        selected(
            candidates,
            kept_where(candidates, |c: PostCandidate| is_by_another(query, c)),
            true,
        ).contains(candidate),
    ensures
        candidate.author_id != query.user_id as u64,
{
    law_kept_candidates_pass(candidates, |c: PostCandidate| is_by_another(query, c), candidate);
}

/// A post for subscribers is kept only for those who are.
pub proof fn law_subscriber_posts_need_a_subscription(
    query: ScoredPostsQuery,
    candidates: Seq<PostCandidate>,
    candidate: PostCandidate,
)
    requires
        selected(
            candidates,
            kept_where(candidates, |c: PostCandidate| is_readable(query, c)),
            true,
        ).contains(candidate),
    ensures
        candidate.subscription_author_id matches Some(author_id) ==> subscribed(query).contains(
            author_id,
        ),
{
    law_kept_candidates_pass(candidates, |c: PostCandidate| is_readable(query, c), candidate);
}

/// A post older than allowed, or of unknown age, is removed.
pub proof fn law_old_posts_are_removed(
    filter: AgeFilter,
    candidates: Seq<PostCandidate>,
    ages: Seq<Option<u128>>,
    place: int,
)
    requires
        candidates.len() == ages.len(),
        0 <= place < candidates.len(),
        ages[place] matches Some(age) ==> age > filter.max_age,
    ensures
        selected(
            candidates,
            ages.map_values(|age: Option<u128>| filter.allows(age)),
            false,
        ).contains(candidates[place]),
{
    let flags = ages.map_values(|age: Option<u128>| filter.allows(age));
    law_flagged_candidates_are_selected(candidates, flags, false, place);
}

proof fn lemma_first_occurrence_exists(keys: Seq<i128>, place: int) -> (first: int)
    requires
        0 <= place < keys.len(),
    ensures
        0 <= first <= place,
        keys[first] == keys[place],
        is_first_occurrence(keys, first),
    decreases place,
{
    if is_first_occurrence(keys, place) {
        place
    } else {
        let j = choose|j: int| 0 <= j < place && keys[j] == keys[place];
        lemma_first_occurrence_exists(keys, j)
    }
}

/// No two of `s` have the same key.
pub open spec fn has_distinct_keys(
    s: Seq<PostCandidate>,
    key: spec_fn(PostCandidate) -> i128,
) -> bool {
    forall|i: int, j: int|
        0 <= i < j < s.len() ==> key(#[trigger] s[i]) != key(#[trigger] s[j])
}

/// One of `s` has the key `k`.
pub open spec fn has_key(
    s: Seq<PostCandidate>,
    key: spec_fn(PostCandidate) -> i128,
    k: i128,
) -> bool {
    exists|i: int| 0 <= i < s.len() && key(#[trigger] s[i]) == k
}

proof fn lemma_kept_keys_distinct(
    s: Seq<PostCandidate>,
    key: spec_fn(PostCandidate) -> i128,
    whole: Seq<i128>,
    flags: Seq<bool>,
)
    requires
        s.len() <= whole.len(),
        flags.len() == s.len(),
        forall|i: int| 0 <= i < s.len() ==> whole[i] == key(#[trigger] s[i]),
        forall|i: int| 0 <= i < s.len() ==> #[trigger] flags[i] == is_first_occurrence(whole, i),
    ensures
        has_distinct_keys(selected(s, flags, true), key),
    decreases s.len(),
{
    let kept = selected(s, flags, true);
    if s.len() > 0 {
        let front = s.drop_last();
        let front_flags = flags.drop_last();
        assert forall|i: int| 0 <= i < front.len() implies whole[i] == key(#[trigger] front[i]) by {
            assert(whole[i] == key(s[i]));
        }
        lemma_kept_keys_distinct(front, key, whole, front_flags);
        let before = selected(front, front_flags, true);
        assert forall|i: int, j: int| 0 <= i < j < kept.len() implies key(#[trigger] kept[i])
            != key(#[trigger] kept[j]) by {
            if j < before.len() {
                assert(kept[i] == before[i] && kept[j] == before[j]);
            } else {
                let place = law_selection_follows_flags(front, front_flags, true, i);
                assert(kept[i] == front[place]);
                assert(whole[place] == key(front[place]));
                assert(whole[s.len() - 1] == key(s[s.len() - 1]));
                assert(flags[s.len() - 1]);
                assert(is_first_occurrence(whole, s.len() - 1));
            }
        }
    }
}

/// Of candidates with the same key only the first is kept: no key is kept twice,
/// and no key is lost.
pub proof fn law_first_of_each_key_is_kept(
    candidates: Seq<PostCandidate>,
    key: spec_fn(PostCandidate) -> i128,
    place: int,
)
    requires
        0 <= place < candidates.len(),
    ensures
        has_distinct_keys(
            selected(candidates, first_occurrences(candidates.map_values(key)), true),
            key,
        ),
        has_key(
            selected(candidates, first_occurrences(candidates.map_values(key)), true),
            key,
            key(candidates[place]),
        ),
{
    let keys = candidates.map_values(key);
    let flags = first_occurrences(keys);
    lemma_kept_keys_distinct(candidates, key, keys, flags);
    let kept = selected(candidates, flags, true);
    let first = lemma_first_occurrence_exists(keys, place);
    law_flagged_candidates_are_selected(candidates, flags, true, first);
    let i = choose|i: int| 0 <= i < kept.len() && kept[i] == candidates[first];
    assert(key(kept[i]) == key(candidates[place]));
}

/// Keeping the first of each key once more removes nothing. So it is with posts and
/// with contents.
pub proof fn law_first_of_each_key_is_settled_by_one_run(
    candidates: Seq<PostCandidate>,
    key: spec_fn(PostCandidate) -> i128,
)
    ensures
        ({
            let kept = selected(candidates, first_occurrences(candidates.map_values(key)), true);
            let flags = first_occurrences(kept.map_values(key));
            &&& selected(kept, flags, true) == kept
            &&& selected(kept, flags, false).len() == 0
        }),
{
    let keys = candidates.map_values(key);
    let kept = selected(candidates, first_occurrences(keys), true);
    let flags = first_occurrences(kept.map_values(key));
    lemma_kept_keys_distinct(candidates, key, keys, first_occurrences(keys));
    assert forall|i: int| 0 <= i < flags.len() implies #[trigger] flags[i] by {
        assert forall|j: int| 0 <= j < i implies #[trigger] kept.map_values(key)[j]
            != kept.map_values(key)[i] by {
            assert(key(kept[j]) != key(kept[i]));
        }
    }
    lemma_all_flagged(kept, flags);
}

proof fn lemma_all_flagged<C>(s: Seq<C>, flags: Seq<bool>)
    requires
        flags.len() == s.len(),
        forall|i: int| 0 <= i < flags.len() ==> #[trigger] flags[i],
    ensures
        selected(s, flags, true) == s,
        selected(s, flags, false).len() == 0,
    decreases s.len(),
{
    if s.len() > 0 {
        assert(flags[s.len() - 1]);
        lemma_all_flagged(s.drop_last(), flags.drop_last());
        assert(s.drop_last().push(s.last()) =~= s);
    } else {
        assert(selected(s, flags, true) =~= s);
    }
}

/// No answer shows a post twice.
pub proof fn law_posts_are_kept_once(candidates: Seq<PostCandidate>, i: int, j: int)
    requires
        0 <= i < j < selected(
            candidates,
            first_occurrences(candidates.map_values(|c: PostCandidate| post_key(c))),
            true,
        ).len(),
    ensures
        selected(
            candidates,
            first_occurrences(candidates.map_values(|c: PostCandidate| post_key(c))),
            true,
        )[i].tweet_id != selected(
            candidates,
            first_occurrences(candidates.map_values(|c: PostCandidate| post_key(c))),
            true,
        )[j].tweet_id,
{
    let key = |c: PostCandidate| post_key(c);
    let flags = first_occurrences(candidates.map_values(key));
    let place = law_selection_follows_flags(candidates, flags, true, i);
    law_first_of_each_key_is_kept(candidates, key, place);
    let kept = selected(candidates, first_occurrences(candidates.map_values(key)), true);
    assert(key(kept[i]) != key(kept[j]));
}

/// No answer shows a post both as an original and as a retweet, nor as two
/// retweets.
pub proof fn law_contents_are_kept_once(candidates: Seq<PostCandidate>, i: int, j: int)
    requires
        0 <= i < j < selected(
            candidates,
            first_occurrences(candidates.map_values(|c: PostCandidate| content_key(c))),
            true,
        ).len(),
    ensures
        content_key(
            selected(
                candidates,
                first_occurrences(candidates.map_values(|c: PostCandidate| content_key(c))),
                true,
            )[i],
        ) != content_key(
            selected(
                candidates,
                first_occurrences(candidates.map_values(|c: PostCandidate| content_key(c))),
                true,
            )[j],
        ),
{
    let key = |c: PostCandidate| content_key(c);
    let flags = first_occurrences(candidates.map_values(key));
    let place = law_selection_follows_flags(candidates, flags, true, i);
    law_first_of_each_key_is_kept(candidates, key, place);
    let kept = selected(candidates, first_occurrences(candidates.map_values(key)), true);
    assert(key(kept[i]) != key(kept[j]));
}

proof fn lemma_deduplicated_subset(candidates: Seq<PostCandidate>, i: int)
    requires
        0 <= i < deduplicated(candidates).0.len(),
    ensures
        candidates.contains(deduplicated(candidates).0[i]),
    decreases candidates.len(),
{
    let front = candidates.drop_last();
    let before = deduplicated(front).0;
    let after = deduplicated(candidates).0;
    let candidate = candidates.last();
    assert(candidates[candidates.len() - 1] == candidate);
    if i < before.len() && after[i] == before[i] {
        lemma_deduplicated_subset(front, i);
        let k = choose|k: int| 0 <= k < front.len() && front[k] == before[i];
        assert(candidates[k] == after[i]);
    } else {
        assert(after[i] == candidate);
    }
}

/// The filters after the selection leave only posts that may be shown, and of
/// each conversation one.
pub proof fn law_answers_are_visible_and_distinct(candidates: Seq<PostCandidate>, i: int)
    requires
        0 <= i < deduplicated(
            selected(
                candidates,
                kept_where(candidates, |c: PostCandidate| is_visible(c)),
                true,
            ),
        ).0.len(),
    ensures
        !must_drop(
            deduplicated(
                selected(
                    candidates,
                    kept_where(candidates, |c: PostCandidate| is_visible(c)),
                    true,
                ),
            ).0[i].visibility_reason,
        ),
        is_unique(
            deduplicated(
                selected(
                    candidates,
                    kept_where(candidates, |c: PostCandidate| is_visible(c)),
                    true,
                ),
            ).0,
        ),
{
    let keep = |c: PostCandidate| is_visible(c);
    let visible = selected(candidates, kept_where(candidates, keep), true);
    lemma_deduplicated_subset(visible, i);
    law_kept_candidates_pass(candidates, keep, deduplicated(visible).0[i]);
    law_conversations_are_kept_once(visible);
}

} // verus!
