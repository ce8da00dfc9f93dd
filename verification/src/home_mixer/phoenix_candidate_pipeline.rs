//! The pipeline of the feed: which components work in which order.

use vstd::prelude::*;

use crate::candidate_pipeline::candidate_pipeline::CandidatePipeline;
use crate::candidate_pipeline::component::Component;
use crate::candidate_pipeline::filter::{selected, Filter, FilterResult};
use crate::candidate_pipeline::hydrator::Hydrator;
use crate::candidate_pipeline::query_hydrator::QueryHydrator;
use crate::candidate_pipeline::scorer::Scorer;
use crate::candidate_pipeline::selector::Selector;
use crate::candidate_pipeline::side_effect::SideEffect;
use crate::candidate_pipeline::source::Source;
use crate::home_mixer::candidate::PostCandidate;
use crate::home_mixer::candidate_hydrators::core_data_candidate_hydrator::CoreDataCandidateHydrator;
use crate::home_mixer::candidate_hydrators::gizmoduck_hydrator::GizmoduckCandidateHydrator;
use crate::home_mixer::candidate_hydrators::in_network_candidate_hydrator::InNetworkCandidateHydrator;
use crate::home_mixer::candidate_hydrators::subscription_hydrator::SubscriptionHydrator;
use crate::home_mixer::candidate_hydrators::vf_candidate_hydrator::VFCandidateHydrator;
use crate::home_mixer::candidate_hydrators::video_duration_candidate_hydrator::VideoDurationCandidateHydrator;
use crate::home_mixer::filters::age_filter::AgeFilter;
use crate::home_mixer::filters::author_socialgraph_filter::{is_welcome, AuthorSocialgraphFilter};
use crate::home_mixer::filters::common::{first_occurrences, kept_where};
use crate::home_mixer::filters::core_data_hydration_filter::{
    has_core_data, CoreDataHydrationFilter,
};
use crate::home_mixer::filters::dedup_conversation_filter::{deduplicated, DedupConversationFilter};
use crate::home_mixer::filters::drop_duplicates_filter::{post_key, DropDuplicatesFilter};
use crate::home_mixer::filters::ineligible_subscription_filter::{
    is_readable, IneligibleSubscriptionFilter,
};
use crate::home_mixer::filters::muted_keyword_filter::{unmuted, MutedKeywordFilter};
use crate::home_mixer::filters::previously_seen_posts_filter::{
    is_unseen, PreviouslySeenPostsFilter, RelatedPost,
};
use crate::home_mixer::filters::previously_served_posts_filter::{
    is_unserved, PreviouslyServedPostsFilter,
};
use crate::home_mixer::filters::retweet_deduplication_filter::{
    content_key, RetweetDeduplicationFilter,
};
use crate::home_mixer::filters::self_tweet_filter::{is_by_another, SelfTweetFilter};
use crate::home_mixer::filters::vf_filter::{is_visible, VFFilter};
use crate::home_mixer::query::ScoredPostsQuery;

verus! {

/// A component that fills in the candidates of the feed.
pub enum PhoenixHydrator {
    InNetwork(InNetworkCandidateHydrator),
    CoreData(CoreDataCandidateHydrator),
    VideoDuration(VideoDurationCandidateHydrator),
    Subscription(SubscriptionHydrator),
    Gizmoduck(GizmoduckCandidateHydrator),
    Visibility(VFCandidateHydrator),
}

/// The name of a hydrator in logs: that of the component itself.
pub open spec fn hydrator_name(hydrator: PhoenixHydrator) -> Seq<char> {
    match hydrator {
        PhoenixHydrator::InNetwork(_) => "InNetworkCandidateHydrator"@,
        PhoenixHydrator::CoreData(_) => "CoreDataCandidateHydrator"@,
        PhoenixHydrator::VideoDuration(_) => "VideoDurationCandidateHydrator"@,
        PhoenixHydrator::Subscription(_) => "SubscriptionHydrator"@,
        PhoenixHydrator::Gizmoduck(_) => "GizmoduckCandidateHydrator"@,
        PhoenixHydrator::Visibility(_) => "VFCandidateHydrator"@,
    }
}

impl Component<ScoredPostsQuery> for PhoenixHydrator {
    open spec fn is_enabled(&self, query: ScoredPostsQuery) -> bool {
        true
    }

    fn enable(&self, query: &ScoredPostsQuery) -> (enabled: bool) {
        true
    }

    fn name(&self) -> (name: &'static str)
        ensures
            name@ == hydrator_name(*self),
    {
        match self {
            PhoenixHydrator::InNetwork(hydrator) => hydrator.name(),
            PhoenixHydrator::CoreData(hydrator) => hydrator.name(),
            PhoenixHydrator::VideoDuration(hydrator) => hydrator.name(),
            PhoenixHydrator::Subscription(hydrator) => hydrator.name(),
            PhoenixHydrator::Gizmoduck(hydrator) => hydrator.name(),
            PhoenixHydrator::Visibility(hydrator) => hydrator.name(),
        }
    }
}

impl Hydrator<ScoredPostsQuery, PostCandidate> for PhoenixHydrator {
    open spec fn updated(
        &self,
        candidate: PostCandidate,
        hydrated: PostCandidate,
    ) -> PostCandidate {
        match self {
            PhoenixHydrator::InNetwork(hydrator) => hydrator.updated(candidate, hydrated),
            PhoenixHydrator::CoreData(hydrator) => hydrator.updated(candidate, hydrated),
            PhoenixHydrator::VideoDuration(hydrator) => hydrator.updated(candidate, hydrated),
            PhoenixHydrator::Subscription(hydrator) => hydrator.updated(candidate, hydrated),
            PhoenixHydrator::Gizmoduck(hydrator) => hydrator.updated(candidate, hydrated),
            PhoenixHydrator::Visibility(hydrator) => hydrator.updated(candidate, hydrated),
        }
    }

    fn update(&self, candidate: &mut PostCandidate, hydrated: PostCandidate) {
        match self {
            PhoenixHydrator::InNetwork(hydrator) => hydrator.update(candidate, hydrated),
            PhoenixHydrator::CoreData(hydrator) => hydrator.update(candidate, hydrated),
            PhoenixHydrator::VideoDuration(hydrator) => hydrator.update(candidate, hydrated),
            PhoenixHydrator::Subscription(hydrator) => hydrator.update(candidate, hydrated),
            PhoenixHydrator::Gizmoduck(hydrator) => hydrator.update(candidate, hydrated),
            PhoenixHydrator::Visibility(hydrator) => hydrator.update(candidate, hydrated),
        }
    }
}

/// A component that removes candidates of the feed.
pub enum PhoenixFilter {
    DropDuplicates(DropDuplicatesFilter),
    CoreDataHydration(CoreDataHydrationFilter),
    Age(AgeFilter),
    SelfTweet(SelfTweetFilter),
    RetweetDeduplication(RetweetDeduplicationFilter),
    IneligibleSubscription(IneligibleSubscriptionFilter),
    PreviouslySeenPosts(PreviouslySeenPostsFilter),
    PreviouslyServedPosts(PreviouslyServedPostsFilter),
    MutedKeyword(MutedKeywordFilter),
    AuthorSocialgraph(AuthorSocialgraphFilter),
    Visibility(VFFilter),
    DedupConversation(DedupConversationFilter),
}

/// What a filter has to be told besides the query and the candidates.
pub enum PhoenixEvidence {
    /// Nothing.
    Nothing,
    /// The age of each candidate in nanoseconds, where it can be told.
    Ages(Vec<Option<u128>>),
    /// For each candidate the posts that it shows or belongs to, and whether
    /// they may have been seen.
    Related(Vec<Vec<RelatedPost>>),
    /// For each candidate the posts that it shows or belongs to.
    RelatedIds(Vec<Vec<i64>>),
    /// For each candidate whether its text matches a muted keyword.
    Matches(Vec<bool>),
}

/// The name of a filter in logs: that of the component itself.
pub open spec fn filter_name(filter: PhoenixFilter) -> Seq<char> {
    match filter {
        PhoenixFilter::DropDuplicates(_) => "DropDuplicatesFilter"@,
        PhoenixFilter::CoreDataHydration(_) => "CoreDataHydrationFilter"@,
        PhoenixFilter::Age(_) => "AgeFilter"@,
        PhoenixFilter::SelfTweet(_) => "SelfTweetFilter"@,
        PhoenixFilter::RetweetDeduplication(_) => "RetweetDeduplicationFilter"@,
        PhoenixFilter::IneligibleSubscription(_) => "IneligibleSubscriptionFilter"@,
        PhoenixFilter::PreviouslySeenPosts(_) => "PreviouslySeenPostsFilter"@,
        PhoenixFilter::PreviouslyServedPosts(_) => "PreviouslyServedPostsFilter"@,
        PhoenixFilter::MutedKeyword(_) => "MutedKeywordFilter"@,
        PhoenixFilter::AuthorSocialgraph(_) => "AuthorSocialgraphFilter"@,
        PhoenixFilter::Visibility(_) => "VFFilter"@,
        PhoenixFilter::DedupConversation(_) => "DedupConversationFilter"@,
    }
}

impl Component<ScoredPostsQuery> for PhoenixFilter {
    open spec fn is_enabled(&self, query: ScoredPostsQuery) -> bool {
        match self {
            PhoenixFilter::PreviouslyServedPosts(_) => query.is_bottom_request,
            _ => true,
        }
    }

    fn enable(&self, query: &ScoredPostsQuery) -> (enabled: bool) {
        match self {
            PhoenixFilter::PreviouslyServedPosts(filter) => filter.enable(query),
            _ => true,
        }
    }

    fn name(&self) -> (name: &'static str)
        ensures
            name@ == filter_name(*self),
    {
        match self {
            PhoenixFilter::DropDuplicates(filter) => filter.name(),
            PhoenixFilter::CoreDataHydration(filter) => filter.name(),
            PhoenixFilter::Age(filter) => filter.name(),
            PhoenixFilter::SelfTweet(filter) => filter.name(),
            PhoenixFilter::RetweetDeduplication(filter) => filter.name(),
            PhoenixFilter::IneligibleSubscription(filter) => filter.name(),
            PhoenixFilter::PreviouslySeenPosts(filter) => filter.name(),
            PhoenixFilter::PreviouslyServedPosts(filter) => filter.name(),
            PhoenixFilter::MutedKeyword(filter) => filter.name(),
            PhoenixFilter::AuthorSocialgraph(filter) => filter.name(),
            PhoenixFilter::Visibility(filter) => filter.name(),
            PhoenixFilter::DedupConversation(filter) => filter.name(),
        }
    }
}

/// Which candidates a filter keeps.
pub open spec fn kept_flags(
    filter: PhoenixFilter,
    query: ScoredPostsQuery,
    candidates: Seq<PostCandidate>,
    evidence: PhoenixEvidence,
) -> Seq<bool> {
    match (filter, evidence) {
        (PhoenixFilter::DropDuplicates(_), _) => first_occurrences(
            candidates.map_values(|c: PostCandidate| post_key(c)),
        ),
        (PhoenixFilter::CoreDataHydration(_), _) => kept_where(
            candidates,
            |c: PostCandidate| has_core_data(c),
        ),
        (PhoenixFilter::Age(age_filter), PhoenixEvidence::Ages(ages)) => ages@.map_values(
            |age: Option<u128>| age_filter.allows(age),
        ),
        (PhoenixFilter::SelfTweet(_), _) => kept_where(
            candidates,
            |c: PostCandidate| is_by_another(query, c),
        ),
        (PhoenixFilter::RetweetDeduplication(_), _) => first_occurrences(
            candidates.map_values(|c: PostCandidate| content_key(c)),
        ),
        (PhoenixFilter::IneligibleSubscription(_), _) => kept_where(
            candidates,
            |c: PostCandidate| is_readable(query, c),
        ),
        (PhoenixFilter::PreviouslySeenPosts(_), PhoenixEvidence::Related(related)) =>
            related@.map_values(|posts: Vec<RelatedPost>| is_unseen(query, posts@)),
        (PhoenixFilter::PreviouslyServedPosts(_), PhoenixEvidence::RelatedIds(related)) =>
            related@.map_values(|posts: Vec<i64>| is_unserved(query, posts@)),
        (PhoenixFilter::MutedKeyword(_), PhoenixEvidence::Matches(matches)) => unmuted(
            query,
            matches@,
        ),
        (PhoenixFilter::AuthorSocialgraph(_), _) => kept_where(
            candidates,
            |c: PostCandidate| is_welcome(query, c),
        ),
        (PhoenixFilter::Visibility(_), _) => kept_where(
            candidates,
            |c: PostCandidate| is_visible(c),
        ),
        _ => Seq::empty(),
    }
}

/// What a filter keeps, and what it removes.
pub open spec fn parted(
    filter: PhoenixFilter,
    query: ScoredPostsQuery,
    candidates: Seq<PostCandidate>,
    evidence: PhoenixEvidence,
) -> (Seq<PostCandidate>, Seq<PostCandidate>) {
    if filter is DedupConversation {
        deduplicated(candidates)
    } else {
        let flags = kept_flags(filter, query, candidates, evidence);
        (selected(candidates, flags, true), selected(candidates, flags, false))
    }
}

impl Filter<ScoredPostsQuery, PostCandidate> for PhoenixFilter {
    type Evidence = PhoenixEvidence;

    open spec fn is_evidence(
        &self,
        candidates: Seq<PostCandidate>,
        evidence: PhoenixEvidence,
    ) -> bool {
        match self {
            PhoenixFilter::Age(_) => evidence matches PhoenixEvidence::Ages(ages) && ages@.len()
                == candidates.len(),
            PhoenixFilter::PreviouslySeenPosts(_) => evidence matches PhoenixEvidence::Related(
                related,
            ) && related@.len() == candidates.len(),
            PhoenixFilter::PreviouslyServedPosts(_) => evidence matches PhoenixEvidence::RelatedIds(
                related,
            ) && related@.len() == candidates.len(),
            PhoenixFilter::MutedKeyword(_) => evidence matches PhoenixEvidence::Matches(matches)
                && matches@.len() == candidates.len(),
            _ => true,
        }
    }

    fn filter(
        &self,
        query: &ScoredPostsQuery,
        candidates: Vec<PostCandidate>,
        evidence: &PhoenixEvidence,
    ) -> (result: Result<FilterResult<PostCandidate>, String>)
        ensures
            result matches Ok(parts) && (parts.kept@, parts.removed@) == parted(
                *self,
                *query,
                candidates@,
                *evidence,
            ),
    {
        match (self, evidence) {
            (PhoenixFilter::DropDuplicates(filter), _) => filter.filter(query, candidates, &()),
            (PhoenixFilter::CoreDataHydration(filter), _) => filter.filter(query, candidates, &()),
            (PhoenixFilter::Age(filter), PhoenixEvidence::Ages(ages)) => filter.filter(
                query,
                candidates,
                ages,
            ),
            (PhoenixFilter::SelfTweet(filter), _) => filter.filter(query, candidates, &()),
            (PhoenixFilter::RetweetDeduplication(filter), _) => filter.filter(
                query,
                candidates,
                &(),
            ),
            (PhoenixFilter::IneligibleSubscription(filter), _) => filter.filter(
                query,
                candidates,
                &(),
            ),
            (
                PhoenixFilter::PreviouslySeenPosts(filter),
                PhoenixEvidence::Related(related),
            ) => filter.filter(query, candidates, related),
            (
                PhoenixFilter::PreviouslyServedPosts(filter),
                PhoenixEvidence::RelatedIds(related),
            ) => filter.filter(query, candidates, related),
            (PhoenixFilter::MutedKeyword(filter), PhoenixEvidence::Matches(matches)) =>
                filter.filter(query, candidates, matches),
            (PhoenixFilter::AuthorSocialgraph(filter), _) => filter.filter(query, candidates, &()),
            (PhoenixFilter::Visibility(filter), _) => filter.filter(query, candidates, &()),
            (PhoenixFilter::DedupConversation(filter), _) => filter.filter(query, candidates, &()),
            _ => Err(String::new()),
        }
    }
}

/// The settings of the pipeline.
#[derive(Clone, Copy, Debug, PartialEq, Eq, Structural)]
pub struct PhoenixParams {
    /// How old a post may be, in seconds.
    pub max_post_age: u64,
    /// How many posts an answer has at most.
    pub result_size: usize,
}

/// The pipeline of the feed. The components that fill in the query, bring in and
/// score candidates, pick among them and act on the result are given to it.
pub struct PhoenixCandidatePipeline<QH, S, Sc, Sel, SE> {
    query_hydrators: Vec<QH>,
    sources: Vec<S>,
    hydrators: Vec<PhoenixHydrator>,
    filters: Vec<PhoenixFilter>,
    scorers: Vec<Sc>,
    selector: Sel,
    post_selection_hydrators: Vec<PhoenixHydrator>,
    post_selection_filters: Vec<PhoenixFilter>,
    side_effects: Vec<SE>,
    result_size: usize,
}

impl<
    QH: QueryHydrator<ScoredPostsQuery>,
    S: Source<ScoredPostsQuery, PostCandidate>,
    Sc: Scorer<ScoredPostsQuery, PostCandidate>,
    Sel: Selector<ScoredPostsQuery, PostCandidate>,
    SE: SideEffect<ScoredPostsQuery, PostCandidate>,
> PhoenixCandidatePipeline<QH, S, Sc, Sel, SE> {
    /// The pipeline of the feed with the given components.
    pub fn build_with_clients(
        user_action_seq_query_hydrator: QH,
        user_features_query_hydrator: QH,
        phoenix_source: S,
        thunder_source: S,
        phoenix_scorer: Sc,
        weighted_scorer: Sc,
        author_diversity_scorer: Sc,
        oon_scorer: Sc,
        selector: Sel,
        cache_request_info_side_effect: SE,
        params: PhoenixParams,
    ) -> (pipeline: Self)
        ensures
            pipeline.query_hydrator_list() == seq![
                user_action_seq_query_hydrator,
                user_features_query_hydrator,
            ],
            pipeline.source_list() == seq![phoenix_source, thunder_source],
            pipeline.hydrator_list() == seq![
                PhoenixHydrator::InNetwork(InNetworkCandidateHydrator),
                PhoenixHydrator::CoreData(CoreDataCandidateHydrator),
                PhoenixHydrator::VideoDuration(VideoDurationCandidateHydrator),
                PhoenixHydrator::Subscription(SubscriptionHydrator),
                PhoenixHydrator::Gizmoduck(GizmoduckCandidateHydrator),
            ],
            pipeline.filter_list() == seq![
                PhoenixFilter::DropDuplicates(DropDuplicatesFilter),
                PhoenixFilter::CoreDataHydration(CoreDataHydrationFilter),
                PhoenixFilter::Age(
                    AgeFilter { max_age: (params.max_post_age * 1_000_000_000) as u128 },
                ),
                PhoenixFilter::SelfTweet(SelfTweetFilter),
                PhoenixFilter::RetweetDeduplication(RetweetDeduplicationFilter),
                PhoenixFilter::IneligibleSubscription(IneligibleSubscriptionFilter),
                PhoenixFilter::PreviouslySeenPosts(PreviouslySeenPostsFilter),
                PhoenixFilter::PreviouslyServedPosts(PreviouslyServedPostsFilter),
                PhoenixFilter::MutedKeyword(MutedKeywordFilter {  }),
                PhoenixFilter::AuthorSocialgraph(AuthorSocialgraphFilter),
            ],
            pipeline.scorer_list() == seq![
                phoenix_scorer,
                weighted_scorer,
                author_diversity_scorer,
                oon_scorer,
            ],
            pipeline.the_selector() == selector,
            pipeline.post_selection_hydrator_list() == seq![
                PhoenixHydrator::Visibility(VFCandidateHydrator),
            ],
            pipeline.post_selection_filter_list() == seq![
                PhoenixFilter::Visibility(VFFilter),
                PhoenixFilter::DedupConversation(DedupConversationFilter),
            ],
            pipeline.side_effect_list() == seq![cache_request_info_side_effect],
            pipeline.max_results() == params.result_size,
    {
        let mut query_hydrators: Vec<QH> = Vec::new();
        query_hydrators.push(user_action_seq_query_hydrator);
        query_hydrators.push(user_features_query_hydrator);

        let mut sources: Vec<S> = Vec::new();
        sources.push(phoenix_source);
        sources.push(thunder_source);

        let mut hydrators: Vec<PhoenixHydrator> = Vec::new();
        hydrators.push(PhoenixHydrator::InNetwork(InNetworkCandidateHydrator));
        hydrators.push(PhoenixHydrator::CoreData(CoreDataCandidateHydrator));
        hydrators.push(PhoenixHydrator::VideoDuration(VideoDurationCandidateHydrator));
        hydrators.push(PhoenixHydrator::Subscription(SubscriptionHydrator));
        hydrators.push(PhoenixHydrator::Gizmoduck(GizmoduckCandidateHydrator));

        let max_age: u128 = params.max_post_age as u128 * 1_000_000_000;
        let mut filters: Vec<PhoenixFilter> = Vec::new();
        filters.push(PhoenixFilter::DropDuplicates(DropDuplicatesFilter));
        filters.push(PhoenixFilter::CoreDataHydration(CoreDataHydrationFilter));
        filters.push(PhoenixFilter::Age(AgeFilter::new(max_age)));
        filters.push(PhoenixFilter::SelfTweet(SelfTweetFilter));
        filters.push(PhoenixFilter::RetweetDeduplication(RetweetDeduplicationFilter));
        filters.push(PhoenixFilter::IneligibleSubscription(IneligibleSubscriptionFilter));
        filters.push(PhoenixFilter::PreviouslySeenPosts(PreviouslySeenPostsFilter));
        filters.push(PhoenixFilter::PreviouslyServedPosts(PreviouslyServedPostsFilter));
        filters.push(PhoenixFilter::MutedKeyword(MutedKeywordFilter::new()));
        filters.push(PhoenixFilter::AuthorSocialgraph(AuthorSocialgraphFilter));

        let mut scorers: Vec<Sc> = Vec::new();
        scorers.push(phoenix_scorer);
        scorers.push(weighted_scorer);
        scorers.push(author_diversity_scorer);
        scorers.push(oon_scorer);

        let mut post_selection_hydrators: Vec<PhoenixHydrator> = Vec::new();
        post_selection_hydrators.push(PhoenixHydrator::Visibility(VFCandidateHydrator));

        let mut post_selection_filters: Vec<PhoenixFilter> = Vec::new();
        post_selection_filters.push(PhoenixFilter::Visibility(VFFilter));
        post_selection_filters.push(PhoenixFilter::DedupConversation(DedupConversationFilter));

        let mut side_effects: Vec<SE> = Vec::new();
        side_effects.push(cache_request_info_side_effect);

        PhoenixCandidatePipeline {
            query_hydrators,
            sources,
            hydrators,
            filters,
            scorers,
            selector,
            post_selection_hydrators,
            post_selection_filters,
            side_effects,
            result_size: params.result_size,
        }
    }
}

impl<
    QH: QueryHydrator<ScoredPostsQuery>,
    S: Source<ScoredPostsQuery, PostCandidate>,
    Sc: Scorer<ScoredPostsQuery, PostCandidate>,
    Sel: Selector<ScoredPostsQuery, PostCandidate>,
    SE: SideEffect<ScoredPostsQuery, PostCandidate>,
> CandidatePipeline<ScoredPostsQuery, PostCandidate> for PhoenixCandidatePipeline<
    QH,
    S,
    Sc,
    Sel,
    SE,
> {
    type QueryHydrator = QH;

    type Source = S;

    type Hydrator = PhoenixHydrator;

    type Filter = PhoenixFilter;

    type Scorer = Sc;

    type Selector = Sel;

    type SideEffect = SE;

    closed spec fn query_hydrator_list(&self) -> Seq<QH> {
        self.query_hydrators@
    }

    closed spec fn source_list(&self) -> Seq<S> {
        self.sources@
    }

    closed spec fn hydrator_list(&self) -> Seq<PhoenixHydrator> {
        self.hydrators@
    }

    closed spec fn filter_list(&self) -> Seq<PhoenixFilter> {
        self.filters@
    }

    closed spec fn scorer_list(&self) -> Seq<Sc> {
        self.scorers@
    }

    closed spec fn the_selector(&self) -> Sel {
        self.selector
    }

    closed spec fn post_selection_hydrator_list(&self) -> Seq<PhoenixHydrator> {
        self.post_selection_hydrators@
    }

    closed spec fn post_selection_filter_list(&self) -> Seq<PhoenixFilter> {
        self.post_selection_filters@
    }

    closed spec fn side_effect_list(&self) -> Seq<SE> {
        self.side_effects@
    }

    closed spec fn max_results(&self) -> usize {
        self.result_size
    }

    fn query_hydrators(&self) -> (list: &Vec<QH>) {
        &self.query_hydrators
    }

    fn sources(&self) -> (list: &Vec<S>) {
        &self.sources
    }

    fn hydrators(&self) -> (list: &Vec<PhoenixHydrator>) {
        &self.hydrators
    }

    fn filters(&self) -> (list: &Vec<PhoenixFilter>) {
        &self.filters
    }

    fn scorers(&self) -> (list: &Vec<Sc>) {
        &self.scorers
    }

    fn selector(&self) -> (selector: &Sel) {
        &self.selector
    }

    fn post_selection_hydrators(&self) -> (list: &Vec<PhoenixHydrator>) {
        &self.post_selection_hydrators
    }

    fn post_selection_filters(&self) -> (list: &Vec<PhoenixFilter>) {
        &self.post_selection_filters
    }

    fn side_effects(&self) -> (list: &Vec<SE>) {
        &self.side_effects
    }

    fn result_size(&self) -> (size: usize) {
        self.result_size
    }
}

} // verus!
