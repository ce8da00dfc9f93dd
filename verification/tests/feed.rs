use for_you_feed::candidate_pipeline::candidate_pipeline::{
    CandidatePipeline, HasRequestId, PipelineStage,
};
use for_you_feed::candidate_pipeline::component::{duplicate_all, Component};
use for_you_feed::candidate_pipeline::filter::Filter;
use for_you_feed::candidate_pipeline::query_hydrator::QueryHydrator;
use for_you_feed::candidate_pipeline::run::{PipelineAction, PipelineRun, StageOutcome};
use for_you_feed::candidate_pipeline::scorer::Scorer;
use for_you_feed::candidate_pipeline::selector::Selector;
use for_you_feed::candidate_pipeline::side_effect::SideEffect;
use for_you_feed::candidate_pipeline::source::Source;
use for_you_feed::home_mixer::candidate::PostCandidate;
use for_you_feed::home_mixer::filters::previously_seen_posts_filter::RelatedPost;
use for_you_feed::home_mixer::phoenix_candidate_pipeline::{
    PhoenixCandidatePipeline, PhoenixEvidence, PhoenixFilter, PhoenixParams,
};
use for_you_feed::home_mixer::query::ScoredPostsQuery;
use for_you_feed::home_mixer::visibility::FilteredReason;
use for_you_feed::score::Score;

/// Stands in for every component that the pipeline is given.
struct Part {
    name: &'static str,
    on_bottom_requests: bool,
}

fn part(name: &'static str) -> Part {
    Part { name, on_bottom_requests: true }
}

impl Component<ScoredPostsQuery> for Part {
    fn is_enabled(&self, query: ScoredPostsQuery) -> bool {
        self.enable(&query)
    }

    fn enable(&self, query: &ScoredPostsQuery) -> bool {
        self.on_bottom_requests || !query.is_bottom_request
    }

    fn name(&self) -> &'static str {
        self.name
    }
}

impl QueryHydrator<ScoredPostsQuery> for Part {
    fn updated(&self, mut query: ScoredPostsQuery, hydrated: ScoredPostsQuery) -> ScoredPostsQuery {
        QueryHydrator::update(self, &mut query, hydrated);
        query
    }

    fn update(&self, query: &mut ScoredPostsQuery, hydrated: ScoredPostsQuery) {
        query.user_features = hydrated.user_features;
    }
}

impl Source<ScoredPostsQuery, PostCandidate> for Part {}

impl SideEffect<ScoredPostsQuery, PostCandidate> for Part {}

impl Scorer<ScoredPostsQuery, PostCandidate> for Part {
    fn updated(&self, mut candidate: PostCandidate, scored: PostCandidate) -> PostCandidate {
        Scorer::update(self, &mut candidate, scored);
        candidate
    }

    fn update(&self, candidate: &mut PostCandidate, scored: PostCandidate) {
        candidate.score = scored.score;
    }
}

impl Selector<ScoredPostsQuery, PostCandidate> for Part {
    fn score_of(&self, candidate: PostCandidate) -> Score {
        self.score(&candidate)
    }

    fn limit(&self) -> Option<usize> {
        self.size()
    }

    fn score(&self, candidate: &PostCandidate) -> Score {
        match candidate.score {
            Some(score) => score,
            None => Score { bits: f64::NEG_INFINITY.to_bits() },
        }
    }

    fn size(&self) -> Option<usize> {
        Some(4)
    }
}

fn pipeline() -> PhoenixCandidatePipeline<Part, Part, Part, Part, Part> {
    PhoenixCandidatePipeline::build_with_clients(
        part("UserActionSeqQueryHydrator"),
        part("UserFeaturesQueryHydrator"),
        part("PhoenixSource"),
        part("ThunderSource"),
        part("PhoenixScorer"),
        Part { name: "WeightedScorer", on_bottom_requests: false },
        Part { name: "AuthorDiversityScorer", on_bottom_requests: false },
        Part { name: "OONScorer", on_bottom_requests: false },
        part("TopKScoreSelector"),
        Part { name: "CacheRequestInfoSideEffect", on_bottom_requests: false },
        PhoenixParams { max_post_age: 2, result_size: 2 },
    )
}

fn query(is_bottom_request: bool) -> ScoredPostsQuery {
    ScoredPostsQuery::new(
        9,
        1,
        "CH".to_string(),
        "de".to_string(),
        vec![],
        vec![],
        false,
        is_bottom_request,
        vec![],
        "id",
    )
}

fn post(tweet_id: i64) -> PostCandidate {
    PostCandidate {
        tweet_id,
        author_id: 100 + tweet_id as u64,
        tweet_text: "text".to_string(),
        ..PostCandidate::default()
    }
}

fn ids(candidates: &[PostCandidate]) -> Vec<i64> {
    candidates.iter().map(|c| c.tweet_id).collect()
}

fn fail<T>() -> Result<T, String> {
    Err("down".to_string())
}

fn failures(action: &PipelineAction) -> Vec<Result<Vec<PostCandidate>, String>> {
    match action {
        PipelineAction::Run { positions, .. } => positions.iter().map(|_| fail()).collect(),
        PipelineAction::Finish => vec![],
    }
}

/// What each filter is told about the candidates: nothing against any of them.
fn evidence(filter: &PhoenixFilter, candidates: &[PostCandidate]) -> PhoenixEvidence {
    match filter {
        PhoenixFilter::Age(_) => {
            PhoenixEvidence::Ages(candidates.iter().map(|_| Some(2_000_000_000)).collect())
        }
        PhoenixFilter::PreviouslySeenPosts(_) => PhoenixEvidence::Related(
            candidates
                .iter()
                .map(|c| vec![RelatedPost { post_id: c.tweet_id, may_be_seen: false }])
                .collect(),
        ),
        PhoenixFilter::PreviouslyServedPosts(_) => {
            PhoenixEvidence::RelatedIds(candidates.iter().map(|c| vec![c.tweet_id]).collect())
        }
        PhoenixFilter::MutedKeyword(_) => {
            PhoenixEvidence::Matches(candidates.iter().map(|_| false).collect())
        }
        _ => PhoenixEvidence::Nothing,
    }
}

#[test]
fn the_feed_has_its_components_in_order() {
    let feed = pipeline();
    let names = |parts: &Vec<Part>| -> Vec<&'static str> { parts.iter().map(|p| p.name()).collect() };
    assert_eq!(
        names(feed.query_hydrators()),
        vec!["UserActionSeqQueryHydrator", "UserFeaturesQueryHydrator"]
    );
    assert_eq!(names(feed.sources()), vec!["PhoenixSource", "ThunderSource"]);
    assert_eq!(
        names(feed.scorers()),
        vec!["PhoenixScorer", "WeightedScorer", "AuthorDiversityScorer", "OONScorer"]
    );
    assert_eq!(names(feed.side_effects()), vec!["CacheRequestInfoSideEffect"]);
    assert_eq!(feed.selector().name(), "TopKScoreSelector");
    assert_eq!(feed.result_size(), 2);
    let hydrators: Vec<&'static str> = feed.hydrators().iter().map(|h| h.name()).collect();
    assert_eq!(
        hydrators,
        vec![
            "InNetworkCandidateHydrator",
            "CoreDataCandidateHydrator",
            "VideoDurationCandidateHydrator",
            "SubscriptionHydrator",
            "GizmoduckCandidateHydrator",
        ]
    );
    let filters: Vec<&'static str> = feed.filters().iter().map(|f| f.name()).collect();
    assert_eq!(
        filters,
        vec![
            "DropDuplicatesFilter",
            "CoreDataHydrationFilter",
            "AgeFilter",
            "SelfTweetFilter",
            "RetweetDeduplicationFilter",
            "IneligibleSubscriptionFilter",
            "PreviouslySeenPostsFilter",
            "PreviouslyServedPostsFilter",
            "MutedKeywordFilter",
            "AuthorSocialgraphFilter",
        ]
    );
    let last: Vec<&'static str> =
        feed.post_selection_filters().iter().map(|f| f.name()).collect();
    assert_eq!(last, vec!["VFFilter", "DedupConversationFilter"]);
    assert_eq!(feed.post_selection_hydrators()[0].name(), "VFCandidateHydrator");
}

#[test]
fn a_request_is_answered_stage_by_stage() {
    let feed = pipeline();
    let (run, action) = PipelineRun::begin(&feed, query(false));
    assert_eq!(
        action,
        PipelineAction::Run { stage: PipelineStage::QueryHydrator, positions: vec![0, 1] }
    );
    let mut known = query(false);
    known.user_features.blocked_user_ids = vec![103];
    let (run, action) = run.step(&feed, StageOutcome::Queries(vec![fail(), Ok(known)]));
    assert_eq!(action, PipelineAction::Run { stage: PipelineStage::Source, positions: vec![0, 1] });
    assert_eq!(run.query().user_features.blocked_user_ids, vec![103]);

    let own = PostCandidate { author_id: 9, ..post(5) };
    let fetched = vec![Ok(vec![post(1), post(2), post(3)]), Ok(vec![post(1), post(4), own])];
    let (run, action) = run.step(&feed, StageOutcome::Candidates(fetched));
    assert_eq!(
        action,
        PipelineAction::Run { stage: PipelineStage::Hydrator, positions: vec![0, 1, 2, 3, 4] }
    );
    let failed = failures(&action);
    let (mut run, mut action) = run.step(&feed, StageOutcome::Candidates(failed));

    // Every filter but the one for those who scroll on takes its turn.
    let mut turns = vec![];
    while let PipelineAction::Run { stage: PipelineStage::Filter, positions } = &action {
        assert_eq!(positions.len(), 1);
        turns.push(positions[0]);
        let filter = &feed.filters()[positions[0]];
        let evidence = evidence(filter, run.candidates());
        let parts = filter.filter(run.query(), duplicate_all(run.candidates()), &evidence);
        let (next_run, next_action) = run.step(&feed, StageOutcome::Filtered(parts));
        run = next_run;
        action = next_action;
    }
    assert_eq!(turns, vec![0, 1, 2, 3, 4, 5, 6, 8, 9]);
    assert_eq!(ids(run.candidates()), vec![1, 2, 4]);

    let mut turns = vec![];
    while let PipelineAction::Run { stage: PipelineStage::Scorer, positions } = &action {
        turns.push(positions[0]);
        let scored: Vec<PostCandidate> = run
            .candidates()
            .iter()
            .map(|c| PostCandidate {
                score: Some(Score { bits: (c.tweet_id as f64).to_bits() }),
                ..PostCandidate::default()
            })
            .collect();
        let (next_run, next_action) = run.step(&feed, StageOutcome::Scored(Ok(scored)));
        run = next_run;
        action = next_action;
    }
    assert_eq!(turns, vec![0, 1, 2, 3]);
    assert_eq!(
        action,
        PipelineAction::Run { stage: PipelineStage::PostSelectionHydrator, positions: vec![0] }
    );
    assert_eq!(ids(run.candidates()), vec![4, 2, 1]);

    // One post is not to be shown.
    let reasons: Vec<PostCandidate> = run
        .candidates()
        .iter()
        .map(|c| PostCandidate {
            visibility_reason: if c.tweet_id == 2 {
                Some(FilteredReason::Other(0))
            } else {
                None
            },
            ..PostCandidate::default()
        })
        .collect();
    let (mut run, mut action) = run.step(&feed, StageOutcome::Candidates(vec![Ok(reasons)]));
    while let PipelineAction::Run { stage, positions } = &action {
        assert_eq!(*stage, PipelineStage::PostSelectionFilter);
        let filter = &feed.post_selection_filters()[positions[0]];
        let parts = filter.filter(
            run.query(),
            duplicate_all(run.candidates()),
            &PhoenixEvidence::Nothing,
        );
        let (next_run, next_action) = run.step(&feed, StageOutcome::Filtered(parts));
        run = next_run;
        action = next_action;
    }
    let (result, input, side_effects) = run.finish(&feed);
    assert_eq!(ids(&result.retrieved_candidates), vec![1, 2, 3, 1, 4, 5]);
    assert_eq!(ids(&result.filtered_candidates), vec![1, 5, 3, 2]);
    assert_eq!(ids(&result.selected_candidates), vec![4, 1]);
    assert_eq!(input.selected_candidates, result.selected_candidates);
    assert_eq!(input.query, result.query);
    assert!(std::sync::Arc::ptr_eq(&input.query, &result.query));
    assert_eq!(result.query.request_id(), "id-9");
    assert_eq!(side_effects, vec![0]);
}

#[test]
fn components_that_fail_do_not_stop_a_request() {
    let feed = pipeline();
    let (mut run, mut action) = PipelineRun::begin(&feed, query(true));
    let mut stages = vec![];
    while let PipelineAction::Run { stage, positions } = &action {
        stages.push((*stage, positions.clone()));
        let outcome = match stage {
            PipelineStage::QueryHydrator => StageOutcome::Queries(vec![fail(), fail()]),
            PipelineStage::Source => {
                StageOutcome::Candidates(vec![fail(), Ok(vec![post(3), post(1), post(2)])])
            }
            PipelineStage::Hydrator | PipelineStage::PostSelectionHydrator => {
                StageOutcome::Candidates(failures(&action))
            }
            PipelineStage::Filter | PipelineStage::PostSelectionFilter => {
                StageOutcome::Filtered(fail())
            }
            PipelineStage::Scorer => StageOutcome::Scored(Ok(vec![post(8)])),
        };
        let (next_run, next_action) = run.step(&feed, outcome);
        run = next_run;
        action = next_action;
    }
    let expected_filters = (0..10).map(|i| (PipelineStage::Filter, vec![i]));
    assert_eq!(stages[3..13].to_vec(), expected_filters.collect::<Vec<_>>());
    assert_eq!(stages[13], (PipelineStage::Scorer, vec![0]));
    assert_eq!(stages[14], (PipelineStage::PostSelectionHydrator, vec![0]));
    assert_eq!(stages[16], (PipelineStage::PostSelectionFilter, vec![1]));
    assert_eq!(stages.len(), 17);
    let (result, _, side_effects) = run.finish(&feed);
    assert_eq!(ids(&result.selected_candidates), vec![3, 1]);
    assert!(result.filtered_candidates.is_empty());
    assert_eq!(ids(&result.retrieved_candidates), vec![3, 1, 2]);
    assert!(side_effects.is_empty());
}
