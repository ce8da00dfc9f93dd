//! Fills in what is known about authors.

use std::collections::{HashMap, HashSet};
use vstd::prelude::*;

use crate::candidate_pipeline::component::Component;
use crate::candidate_pipeline::hydrator::Hydrator;
use crate::home_mixer::candidate::PostCandidate;
use crate::home_mixer::candidate_features::{GizmoduckUser, GizmoduckUserResult};
use crate::home_mixer::candidate_hydrators::common::{answer_for, look_up};
use crate::home_mixer::query::ScoredPostsQuery;
use crate::seqs::{first_of_each, lemma_filter_map_step, lemma_first_of_each};

verus! {

broadcast use vstd::std_specs::hash::group_hash_axioms;

/// Fills in the names of the users of a post, and how many follow its author.
pub struct GizmoduckCandidateHydrator;

impl Component<ScoredPostsQuery> for GizmoduckCandidateHydrator {
    open spec fn is_enabled(&self, query: ScoredPostsQuery) -> bool {
        true
    }

    fn enable(&self, query: &ScoredPostsQuery) -> (enabled: bool) {
        true
    }

    fn name(&self) -> (name: &'static str)
        ensures
            name@ == "GizmoduckCandidateHydrator"@,
    {
        "GizmoduckCandidateHydrator"
    }
}

impl Hydrator<ScoredPostsQuery, PostCandidate> for GizmoduckCandidateHydrator {
    open spec fn updated(
        &self,
        candidate: PostCandidate,
        hydrated: PostCandidate,
    ) -> PostCandidate {
        PostCandidate {
            author_followers_count: hydrated.author_followers_count,
            author_screen_name: hydrated.author_screen_name,
            retweeted_screen_name: hydrated.retweeted_screen_name,
            ..candidate
        }
    }

    fn update(&self, candidate: &mut PostCandidate, hydrated: PostCandidate) {
        candidate.author_followers_count = hydrated.author_followers_count;
        candidate.author_screen_name = hydrated.author_screen_name;
        candidate.retweeted_screen_name = hydrated.retweeted_screen_name;
    }
}

/// The users of the candidates: the authors, then those whose posts are repeated.
pub open spec fn users_of(candidates: Seq<PostCandidate>) -> Seq<i64> {
    candidates.map_values(|candidate: PostCandidate| candidate.author_id as i64)
        + candidates.filter_map(|candidate: PostCandidate| repeated_user(candidate))
}

/// The user whose post a candidate repeats.
pub open spec fn repeated_user(candidate: PostCandidate) -> Option<i64> {
    match candidate.retweeted_user_id {
        Some(user_id) => Some(user_id as i64),
        None => None,
    }
}

fn dedup(ids: &Vec<i64>) -> (kept: Vec<i64>)
    ensures
        kept@ == first_of_each(ids@),
{
    let mut kept: Vec<i64> = Vec::with_capacity(ids.len());
    let mut seen: HashSet<i64> = HashSet::new();
    let mut i: usize = 0;
    while i < ids.len()
        invariant
            i <= ids.len(),
            kept@ == first_of_each(ids@.take(i as int)),
            seen@ == kept@.to_set(),
        decreases ids.len() - i,
    {
        let id = ids[i];
        assert(ids@.take(i + 1).drop_last() =~= ids@.take(i as int));
        let ghost before = kept@;
        if seen.insert(id) {
            kept.push(id);
            assert(kept@.to_set() =~= before.to_set().insert(id)) by {
                assert(kept@[before.len() as int] == id);
                assert forall|other: i64|
                    before.contains(other) implies kept@.contains(other) by {
                    assert(kept@[before.index_of(other)] == other);
                }
            }
        } else {
            assert(seen@ =~= before.to_set());
        }
        i = i + 1;
    }
    assert(ids@.take(i as int) =~= ids@);
    kept
}

/// The record of a user, where the answer has one.
pub open spec fn known_user(
    users: Map<i64, Option<GizmoduckUserResult>>,
    id: i64,
) -> Option<GizmoduckUser> {
    match answer_for(users, id) {
        Some(result) => result.user,
        None => None,
    }
}

fn find_user(users: &HashMap<i64, Option<GizmoduckUserResult>>, id: i64) -> (found: Option<
    &GizmoduckUser,
>)
    ensures
        (match found {
            Some(user) => known_user(users@, id) == Some(*user),
            None => known_user(users@, id) is None,
        }),
{
    match look_up(users, id) {
        Some(result) => match &result.user {
            Some(user) => Some(user),
            None => None,
        },
        None => None,
    }
}

/// `hydrated` holds what is known about the users of `candidate` and nothing
/// else.
pub open spec fn holds_users(
    hydrated: PostCandidate,
    candidate: PostCandidate,
    users: Map<i64, Option<GizmoduckUserResult>>,
) -> bool {
    let author = known_user(users, candidate.author_id as i64);
    let repeated = match candidate.retweeted_user_id {
        Some(user_id) => known_user(users, user_id as i64),
        None => None,
    };
    exists|blank: PostCandidate| #[trigger]
        blank.is_blank() && hydrated == (PostCandidate {
            author_followers_count: match author {
                Some(user) => Some(user.counts.followers_count as i32),
                None => None,
            },
            author_screen_name: match author {
                Some(user) => Some(user.profile.screen_name),
                None => None,
            },
            retweeted_screen_name: match repeated {
                Some(user) => Some(user.profile.screen_name),
                None => None,
            },
            ..blank
        })
}

impl GizmoduckCandidateHydrator {
    /// The users that the service is asked about, each once.
    pub fn user_ids_to_fetch(&self, candidates: &Vec<PostCandidate>) -> (ids: Vec<i64>)
        ensures
            ids@ == first_of_each(users_of(candidates@)),
            ids@.no_duplicates(),
            ids@.to_set() == users_of(candidates@).to_set(),
    {
        let ghost author = |candidate: PostCandidate| candidate.author_id as i64;
        let ghost repeated = |candidate: PostCandidate| repeated_user(candidate);
        let mut all: Vec<i64> = Vec::with_capacity(candidates.len());
        let mut i: usize = 0;
        while i < candidates.len()
            invariant
                i <= candidates.len(),
                all@.len() == i,
                forall|n: int| 0 <= n < i ==> #[trigger] all@[n] == candidates@[n].author_id as i64,
            decreases candidates.len() - i,
        {
            all.push(candidates[i].author_id as i64);
            i = i + 1;
        }
        assert(all@ =~= candidates@.map_values(author));
        let ghost authors = all@;
        let mut j: usize = 0;
        assert(all@ + candidates@.take(0).filter_map(repeated) =~= all@);
        while j < candidates.len()
            invariant
                j <= candidates.len(),
                repeated == (|candidate: PostCandidate| repeated_user(candidate)),
                all@ == authors + candidates@.take(j as int).filter_map(repeated),
            decreases candidates.len() - j,
        {
            proof {
                lemma_filter_map_step(candidates@, j as int, repeated);
            }
            if let Some(user_id) = candidates[j].retweeted_user_id {
                all.push(user_id as i64);
            }
            j = j + 1;
        }
        assert(candidates@.take(j as int) =~= candidates@);
        proof {
            lemma_first_of_each(all@);
            assert(first_of_each(all@).to_set() =~= all@.to_set());
        }
        dedup(&all)
    }

    /// What the service's answer says about the users of each candidate. An
    /// answer that is an error is passed on.
    pub fn hydrate(
        &self,
        candidates: &Vec<PostCandidate>,
        answer: Result<HashMap<i64, Option<GizmoduckUserResult>>, String>,
    ) -> (result: Result<Vec<PostCandidate>, String>)
        ensures
            (match answer {
                Err(cause) => result == Err::<Vec<PostCandidate>, String>(cause),
                Ok(users) => result matches Ok(hydrated) && hydrated@.len() == candidates@.len()
                    && forall|i: int|
                    0 <= i < hydrated@.len() ==> holds_users(
                        #[trigger] hydrated@[i],
                        candidates@[i],
                        users@,
                    ),
            }),
    {
        let users = match answer {
            Ok(users) => users,
            Err(cause) => return Err(cause),
        };
        let mut hydrated: Vec<PostCandidate> = Vec::with_capacity(candidates.len());
        let mut i: usize = 0;
        while i < candidates.len()
            invariant
                i <= candidates.len(),
                hydrated@.len() == i,
                forall|n: int|
                    0 <= n < i ==> holds_users(#[trigger] hydrated@[n], candidates@[n], users@),
            decreases candidates.len() - i,
        {
            let candidate = &candidates[i];
            let author = find_user(&users, candidate.author_id as i64);
            let author_followers_count: Option<i32> = match author {
                Some(user) => Some(user.counts.followers_count as i32),
                None => None,
            };
            let author_screen_name = match author {
                Some(user) => Some(user.profile.screen_name.clone()),
                None => None,
            };
            let repeated = match candidate.retweeted_user_id {
                Some(user_id) => find_user(&users, user_id as i64),
                None => None,
            };
            let retweeted_screen_name = match repeated {
                Some(user) => Some(user.profile.screen_name.clone()),
                None => None,
            };
            let blank = PostCandidate::default();
            assert(blank.is_blank());
            hydrated.push(
                PostCandidate {
                    author_followers_count,
                    author_screen_name,
                    retweeted_screen_name,
                    ..blank
                },
            );
            i = i + 1;
        }
        Ok(hydrated)
    }
}

} // verus!
