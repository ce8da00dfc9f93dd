//! Fills in how long videos are.

use std::collections::HashMap;
use vstd::prelude::*;

use crate::candidate_pipeline::component::Component;
use crate::candidate_pipeline::hydrator::Hydrator;
use crate::home_mixer::candidate::PostCandidate;
use crate::home_mixer::candidate_features::{MediaEntities, MediaEntity, MediaInfo};
use crate::home_mixer::candidate_hydrators::common::{answer_for, look_up};
use crate::home_mixer::query::ScoredPostsQuery;

verus! {

broadcast use vstd::std_specs::hash::group_hash_axioms;

/// Fills in how long the video of a post is.
pub struct VideoDurationCandidateHydrator;

impl Component<ScoredPostsQuery> for VideoDurationCandidateHydrator {
    open spec fn is_enabled(&self, query: ScoredPostsQuery) -> bool {
        true
    }

    fn enable(&self, query: &ScoredPostsQuery) -> (enabled: bool) {
        true
    }

    fn name(&self) -> (name: &'static str)
        ensures
            name@ == "VideoDurationCandidateHydrator"@,
    {
        "VideoDurationCandidateHydrator"
    }
}

impl Hydrator<ScoredPostsQuery, PostCandidate> for VideoDurationCandidateHydrator {
    open spec fn updated(
        &self,
        candidate: PostCandidate,
        hydrated: PostCandidate,
    ) -> PostCandidate {
        PostCandidate { video_duration_ms: hydrated.video_duration_ms, ..candidate }
    }

    fn update(&self, candidate: &mut PostCandidate, hydrated: PostCandidate) {
        candidate.video_duration_ms = hydrated.video_duration_ms;
    }
}

/// How long the first video among `entities` is.
pub open spec fn first_duration(entities: Seq<MediaEntity>) -> Option<i32>
    decreases entities.len(),
{
    if entities.len() == 0 {
        None
    } else {
        match entities[0].media_info {
            Some(MediaInfo::VideoInfo(video_info)) => Some(video_info.duration_millis),
            None => first_duration(entities.drop_first()),
        }
    }
}

/// How long the first video of a post is, as far as its attachments are known.
pub open spec fn known_duration(entities: Option<MediaEntities>) -> Option<i32> {
    match entities {
        Some(entities) => first_duration(entities@),
        None => None,
    }
}

fn find_duration(entities: &MediaEntities) -> (duration: Option<i32>)
    ensures
        duration == first_duration(entities@),
{
    let mut i: usize = 0;
    assert(entities@.skip(0) =~= entities@);
    while i < entities.len()
        invariant
            i <= entities.len(),
            first_duration(entities@.skip(i as int)) == first_duration(entities@),
        decreases entities.len() - i,
    {
        assert(entities@.skip(i as int).drop_first() =~= entities@.skip(i + 1));
        if let Some(MediaInfo::VideoInfo(video_info)) = entities[i].media_info {
            return Some(video_info.duration_millis);
        }
        i = i + 1;
    }
    None
}

/// `hydrated` holds how long the video is and nothing else.
pub open spec fn holds_duration(hydrated: PostCandidate, duration: Option<i32>) -> bool {
    exists|blank: PostCandidate| #[trigger]
        blank.is_blank() && hydrated == (PostCandidate { video_duration_ms: duration, ..blank })
}

impl VideoDurationCandidateHydrator {
    /// What the service's answer to the ids of the candidates says about each of
    /// them. An answer that is an error is passed on.
    pub fn hydrate(
        &self,
        candidates: &Vec<PostCandidate>,
        answer: Result<HashMap<i64, Option<MediaEntities>>, String>,
    ) -> (result: Result<Vec<PostCandidate>, String>)
        ensures
            (match answer {
                Err(cause) => result == Err::<Vec<PostCandidate>, String>(cause),
                Ok(post_features) => result matches Ok(hydrated) && hydrated@.len()
                    == candidates@.len() && forall|i: int|
                    0 <= i < hydrated@.len() ==> holds_duration(
                        #[trigger] hydrated@[i],
                        known_duration(answer_for(post_features@, candidates@[i].tweet_id)),
                    ),
            }),
    {
        let post_features = match answer {
            Ok(post_features) => post_features,
            Err(cause) => return Err(cause),
        };
        let mut hydrated: Vec<PostCandidate> = Vec::with_capacity(candidates.len());
        let mut i: usize = 0;
        while i < candidates.len()
            invariant
                i <= candidates.len(),
                hydrated@.len() == i,
                forall|n: int|
                    0 <= n < i ==> holds_duration(
                        #[trigger] hydrated@[n],
                        known_duration(answer_for(post_features@, candidates@[n].tweet_id)),
                    ),
            decreases candidates.len() - i,
        {
            let video_duration_ms: Option<i32> = match look_up(
                &post_features,
                candidates[i].tweet_id,
            ) {
                Some(entities) => find_duration(entities),
                None => None,
            };
            let blank = PostCandidate::default();
            assert(blank.is_blank());
            hydrated.push(PostCandidate { video_duration_ms, ..blank });
            i = i + 1;
        }
        Ok(hydrated)
    }
}

} // verus!
