//! The concurrent hash tables that hold the post store's data.
//!
//! The store owns its tables and changes them only through `&mut`, so a table
//! has one content at a time: `post_table`, `timeline_table` and `mark_table`
//! name it, and the functions here say what each operation of the `dashmap`
//! crate does to it.

use dashmap::DashMap;
use std::collections::VecDeque;
use vstd::prelude::*;

use crate::thunder::posts::{LightPost, TinyPost};
use crate::thunder::tables::closed::Closed;

mod closed;

verus! {

/// The concurrent hash table of the `dashmap` crate.
#[verifier::external_type_specification]
#[verifier::external_body]
#[verifier::reject_recursive_types(K)]
#[verifier::reject_recursive_types(V)]
#[verifier::reject_recursive_types(S)]
pub struct ExDashMap<K, V, S>(DashMap<K, V, S>);

/// What a table of posts holds, by post id.
pub uninterp spec fn post_table(map: DashMap<i64, LightPost>) -> Map<i64, LightPost>;

/// What a table of timelines holds, by user id.
pub uninterp spec fn timeline_table(map: DashMap<i64, VecDeque<TinyPost>>) -> Map<
    i64,
    Seq<TinyPost>,
>;

/// What a table of deletion marks holds, by post id.
pub uninterp spec fn mark_table(map: DashMap<i64, bool>) -> Map<i64, bool>;

/// A value that one of the store's three kinds of table holds. The three are those
/// that `closed` lists: what the functions below say of a table is said of these.
pub trait Stored: Closed + View + Sized {
    /// What `map` holds, each value by its view.
    spec fn table(map: DashMap<i64, Self>) -> Map<i64, Self::V>;
}

impl Stored for LightPost {
    open spec fn table(map: DashMap<i64, LightPost>) -> Map<i64, LightPost> {
        post_table(map)
    }
}

impl Stored for VecDeque<TinyPost> {
    open spec fn table(map: DashMap<i64, VecDeque<TinyPost>>) -> Map<i64, Seq<TinyPost>> {
        timeline_table(map)
    }
}

impl Stored for bool {
    open spec fn table(map: DashMap<i64, bool>) -> Map<i64, bool> {
        mark_table(map)
    }
}

/// `DashMap::new`: a table that holds nothing.
#[verifier::external_body]
pub(crate) fn table_new<V: Stored>() -> (created: DashMap<i64, V>)
    ensures
        V::table(created).dom() == Set::<i64>::empty(),
{
    DashMap::new()
}

/// `DashMap::insert`: the key holds the value afterwards, whatever it held
/// before; every other key is unchanged. What the key held before comes back.
#[verifier::external_body]
pub(crate) fn table_insert<V: Stored>(map: &mut DashMap<i64, V>, key: i64, value: V) -> (previous:
    Option<V>)
    ensures
        V::table(*final(map)) == V::table(*old(map)).insert(key, value@),
        (match previous {
            Some(before) => V::table(*old(map)).contains_key(key) && before@ == V::table(
                *old(map),
            )[key],
            None => !V::table(*old(map)).contains_key(key),
        }),
{
    map.insert(key, value)
}

/// `DashMap::remove`: the key holds nothing afterwards; every other key is
/// unchanged. What the key held comes back.
#[verifier::external_body]
pub(crate) fn table_remove<V: Stored>(map: &mut DashMap<i64, V>, key: i64) -> (removed: Option<V>)
    ensures
        V::table(*final(map)) == V::table(*old(map)).remove(key),
        (match removed {
            Some(value) => V::table(*old(map)).contains_key(key) && value@ == V::table(
                *old(map),
            )[key],
            None => !V::table(*old(map)).contains_key(key),
        }),
{
    map.remove(&key).map(|entry| entry.1)
}

/// `DashMap::contains_key` on a table of deletion marks: whether the key holds
/// a mark.
#[verifier::external_body]
pub(crate) fn mark_contains(map: &DashMap<i64, bool>, key: i64) -> (present: bool)
    ensures
        present == mark_table(*map).contains_key(key),
{
    map.contains_key(&key)
}

/// `DashMap::iter`, of which the keys are kept: every key that holds something,
/// each once. In which order they come is not stated: it differs from one
/// process to the next.
#[verifier::external_body]
pub(crate) fn table_keys<V: Stored>(map: &DashMap<i64, V>) -> (keys: Vec<i64>)
    ensures
        keys@.no_duplicates(),
        keys@.to_set() == V::table(*map).dom(),
{
    map.iter().map(|entry| *entry.key()).collect()
}

/// `DashMap::len`: how many keys hold something.
#[verifier::external_body]
pub(crate) fn table_len<V: Stored>(map: &DashMap<i64, V>) -> (count: usize)
    ensures
        count == V::table(*map).dom().len(),
{
    map.len()
}

/// `DashMap::clear`: no key holds anything afterwards.
#[verifier::external_body]
pub(crate) fn table_clear<V: Stored>(map: &mut DashMap<i64, V>)
    ensures
        V::table(*final(map)).dom() == Set::<i64>::empty(),
{
    map.clear()
}

/// `DashMap::get` on a table of posts: a copy of the post that the key holds.
#[verifier::external_body]
pub(crate) fn post_get(map: &DashMap<i64, LightPost>, key: i64) -> (post: Option<LightPost>)
    ensures
        post == (if post_table(*map).contains_key(key) {
            Some(post_table(*map)[key])
        } else {
            None
        }),
{
    map.get(&key).map(|entry| *entry.value())
}

/// `DashMap::get` on a table of timelines: a copy of the timeline that the key
/// holds.
#[verifier::external_body]
pub(crate) fn timeline_get(map: &DashMap<i64, VecDeque<TinyPost>>, key: i64) -> (timeline: Option<
    VecDeque<TinyPost>,
>)
    ensures
        (match timeline {
            Some(entries) => timeline_table(*map).contains_key(key) && entries@ == timeline_table(
                *map,
            )[key],
            None => !timeline_table(*map).contains_key(key),
        }),
{
    map.get(&key).map(|entry| entry.value().clone())
}

/// `DashMap::entry` and `Entry::or_default`: the key's timeline, an empty one
/// where it held none, is moved out and an empty timeline stays in its place;
/// every other key is unchanged.
#[verifier::external_body]
pub(crate) fn timeline_take(map: &mut DashMap<i64, VecDeque<TinyPost>>, key: i64) -> (timeline:
    VecDeque<TinyPost>)
    ensures
        timeline@ == (if timeline_table(*old(map)).contains_key(key) {
            timeline_table(*old(map))[key]
        } else {
            Seq::empty()
        }),
        timeline_table(*final(map)) == timeline_table(*old(map)).insert(key, Seq::empty()),
{
    std::mem::take(&mut *map.entry(key).or_default())
}

/// Whether a timeline lists nothing.
pub(crate) fn is_empty_timeline(timeline: &VecDeque<TinyPost>) -> (empty: bool)
    ensures
        empty == (timeline@.len() == 0),
{
    timeline.len() == 0
}

/// `DashMap::remove_if` with the condition `is_empty_timeline`: the key holds
/// nothing afterwards if it held an empty timeline; else nothing changes, nor
/// does any other key.
#[verifier::external_body]
pub(crate) fn timeline_remove_if_empty(map: &mut DashMap<i64, VecDeque<TinyPost>>, key: i64)
    ensures
        timeline_table(*final(map)) == (if timeline_table(*old(map)).contains_key(key)
            && timeline_table(*old(map))[key].len() == 0 {
            timeline_table(*old(map)).remove(key)
        } else {
            timeline_table(*old(map))
        }),
{
    map.remove_if(&key, |_, timeline| is_empty_timeline(timeline));
}

} // verus!
