use for_you_feed::candidate_pipeline::candidate_pipeline::{
    fetch_candidates, hydrate_query, run_hydrators,
};
use for_you_feed::candidate_pipeline::component::{
    duplicate_all, find_enabled, Component, Duplicable,
};
use for_you_feed::candidate_pipeline::filter::split_by;
use for_you_feed::candidate_pipeline::hydrator::Hydrator;
use for_you_feed::candidate_pipeline::query_hydrator::QueryHydrator;
use for_you_feed::candidate_pipeline::scorer::Scorer;
use for_you_feed::candidate_pipeline::selector::Selector;
use for_you_feed::ordering::stable_order;
use for_you_feed::score::Score;

#[derive(Clone, Debug, PartialEq)]
struct Query {
    tags: Vec<&'static str>,
    quiet: bool,
}

#[derive(Clone, Debug, PartialEq)]
struct Item {
    id: u32,
    label: &'static str,
    score: f64,
}

impl Duplicable for Item {
    fn is_copy_of(self, original: Item) -> bool {
        self == original
    }

    fn duplicate(&self) -> Item {
        self.clone()
    }
}

fn item(id: u32) -> Item {
    Item { id, label: "", score: 0.0 }
}

fn scored_item(id: u32, score: f64) -> Item {
    Item { id, label: "", score }
}

/// One type that can stand in for every kind of component.
struct Part {
    loud_only: bool,
}

const ALWAYS: Part = Part { loud_only: false };
const LOUD: Part = Part { loud_only: true };

impl Component<Query> for Part {
    fn is_enabled(&self, query: Query) -> bool {
        self.enable(&query)
    }

    fn enable(&self, query: &Query) -> bool {
        !(self.loud_only && query.quiet)
    }

    fn name(&self) -> &'static str {
        "Part"
    }
}

impl QueryHydrator<Query> for Part {
    fn updated(&self, mut query: Query, hydrated: Query) -> Query {
        QueryHydrator::update(self, &mut query, hydrated);
        query
    }

    fn update(&self, query: &mut Query, hydrated: Query) {
        query.tags.extend(hydrated.tags);
    }
}

impl Hydrator<Query, Item> for Part {
    fn updated(&self, mut candidate: Item, hydrated: Item) -> Item {
        Hydrator::update(self, &mut candidate, hydrated);
        candidate
    }

    fn update(&self, candidate: &mut Item, hydrated: Item) {
        candidate.label = hydrated.label;
    }
}

impl Scorer<Query, Item> for Part {
    fn updated(&self, mut candidate: Item, scored: Item) -> Item {
        Scorer::update(self, &mut candidate, scored);
        candidate
    }

    fn update(&self, candidate: &mut Item, scored: Item) {
        candidate.score += scored.score;
    }
}

struct Best {
    enabled: bool,
    limit: Option<usize>,
}

impl Component<Query> for Best {
    fn is_enabled(&self, query: Query) -> bool {
        self.enable(&query)
    }

    fn enable(&self, _query: &Query) -> bool {
        self.enabled
    }

    fn name(&self) -> &'static str {
        "Best"
    }
}

impl Selector<Query, Item> for Best {
    fn score_of(&self, candidate: Item) -> Score {
        self.score(&candidate)
    }

    fn limit(&self) -> Option<usize> {
        self.limit
    }

    fn score(&self, candidate: &Item) -> Score {
        Score { bits: candidate.score.to_bits() }
    }

    fn size(&self) -> Option<usize> {
        self.limit
    }
}

fn query(quiet: bool) -> Query {
    Query { tags: vec![], quiet }
}

fn ids(items: &[Item]) -> Vec<u32> {
    items.iter().map(|i| i.id).collect()
}

fn fail<T>() -> Result<T, String> {
    Err("down".to_string())
}

#[test]
fn components_that_fail_are_as_good_as_absent() {
    let parts = vec![ALWAYS, ALWAYS, ALWAYS];
    let mut tagged = query(false);
    tagged.tags = vec!["a"];
    let mut other = query(false);
    other.tags = vec!["b"];
    let with = hydrate_query(
        &parts,
        &vec![0, 1, 2],
        query(false),
        vec![Ok(tagged.clone()), fail(), Ok(other.clone())],
    );
    let without =
        hydrate_query(&parts, &vec![0, 2], query(false), vec![Ok(tagged), Ok(other)]);
    assert_eq!(with, without);

    assert_eq!(
        ids(&fetch_candidates(vec![Ok(vec![item(1)]), fail(), Ok(vec![item(2)])])),
        vec![1, 2]
    );

    let labelled = |label: &'static str| -> Result<Vec<Item>, String> {
        Ok(vec![Item { id: 1, label, score: 0.0 }])
    };
    let with = run_hydrators(
        &parts,
        &vec![0, 1, 2],
        vec![item(1)],
        vec![labelled("x"), Ok(vec![]), labelled("y")],
    );
    assert_eq!(with, vec![Item { id: 1, label: "y", score: 0.0 }]);
    let failed = run_hydrators(&parts, &vec![0], vec![item(1)], vec![fail()]);
    assert_eq!(failed, vec![item(1)]);
}

#[test]
fn components_that_take_part_are_found() {
    assert_eq!(find_enabled(&vec![ALWAYS, LOUD, ALWAYS], &query(true)), vec![0, 2]);
    assert_eq!(find_enabled(&vec![ALWAYS, LOUD, ALWAYS], &query(false)), vec![0, 1, 2]);
}

#[test]
fn updates_go_by_position() {
    let mut items = vec![item(1), item(2), item(3)];
    Hydrator::update_all(
        &ALWAYS,
        &mut items,
        vec![Item { id: 8, label: "a", score: 1.0 }, Item { id: 9, label: "b", score: 1.0 }],
    );
    assert_eq!(
        items,
        vec![
            Item { id: 1, label: "a", score: 0.0 },
            Item { id: 2, label: "b", score: 0.0 },
            item(3),
        ]
    );
    Scorer::update_all(&ALWAYS, &mut items, vec![scored_item(7, 2.5)]);
    assert_eq!(items[0].score, 2.5);
    assert_eq!(items[1].score, 0.0);
}

#[test]
fn copies_hold_the_same() {
    let items = vec![scored_item(1, 0.5), scored_item(2, 1.5)];
    assert_eq!(duplicate_all(&items), items);
}

#[test]
fn splitting_keeps_the_order() {
    let parts = split_by(vec![1, 2, 3, 4], &vec![true, false, false, true]);
    assert_eq!(parts.kept, vec![1, 4]);
    assert_eq!(parts.removed, vec![2, 3]);
}

#[test]
fn best_candidates_come_first() {
    let best = Best { enabled: true, limit: None };
    let scores = [0.5, -1.0, f64::INFINITY, 0.5, -0.0, 0.0, f64::NEG_INFINITY, 1e-300];
    let items: Vec<Item> =
        scores.iter().enumerate().map(|(i, s)| scored_item(i as u32, *s)).collect();
    assert_eq!(ids(&best.sort(items.clone())), vec![2, 0, 3, 7, 4, 5, 1, 6]);
    assert_eq!(ids(&best.select(&query(false), items.clone())).len(), 8);
    let few = Best { enabled: true, limit: Some(2) };
    assert_eq!(ids(&few.select(&query(false), items)), vec![2, 0]);
    assert!(best.sort(vec![]).is_empty());
}

#[test]
fn scores_that_are_no_numbers_stay_in_place() {
    let best = Best { enabled: true, limit: None };
    let items = vec![
        scored_item(0, 1.0),
        scored_item(1, 2.0),
        scored_item(2, f64::NAN),
        scored_item(3, 3.0),
        scored_item(4, 4.0),
        scored_item(5, -f64::NAN),
    ];
    let sorted = best.sort(items);
    assert_eq!(ids(&sorted), vec![1, 0, 2, 4, 3, 5]);
    assert_eq!(ids(&best.sort(sorted)), vec![1, 0, 2, 4, 3, 5]);
}

#[test]
fn scores_are_ordered_as_the_numbers_are() {
    let values = [f64::NEG_INFINITY, -2.5, -1e-310, 0.0, 1e-310, 0.25, 7.0, f64::INFINITY];
    for a in values {
        for b in values {
            let (x, y) = (Score { bits: a.to_bits() }, Score { bits: b.to_bits() });
            assert_eq!(x.is_greater_than(&y), a > b);
            assert_eq!(x.order_key() > y.order_key(), a > b);
        }
        let nan = Score { bits: f64::NAN.to_bits() };
        let number = Score { bits: a.to_bits() };
        assert!(nan.nan() && !number.nan());
        assert!(!number.is_greater_than(&nan) && !nan.is_greater_than(&number));
    }
    assert_eq!(Score::zero().bits, 0.0f64.to_bits());
    assert_eq!(Score { bits: (-0.0f64).to_bits() }.order_key(), 0);
}

#[test]
fn ordering_is_stable() {
    assert_eq!(stable_order(&vec![3, 1, 2, 1, 3]), vec![1, 3, 2, 0, 4]);
    assert!(stable_order(&vec![]).is_empty());
}
