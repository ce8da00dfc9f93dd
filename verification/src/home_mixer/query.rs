//! The request for scored posts.

use vstd::prelude::*;

use crate::candidate_pipeline::candidate_pipeline::HasRequestId;
use crate::candidate_pipeline::component::Duplicable;
use crate::home_mixer::query_features::UserFeatures;
use crate::status::joined;
use crate::text::{append_decimal, decimal_text};

verus! {

/// A filter of posts that the reader has seen, in the form in which it is sent.
#[derive(Clone, Debug, PartialEq, Eq)]
pub struct ImpressionBloomFilterEntry {
    pub encoded: Vec<u8>,
}

/// What the reader did lately, in the form in which it is sent.
#[derive(Clone, Debug, PartialEq, Eq)]
pub struct UserActionSequence {
    pub encoded: Vec<u8>,
}

/// Who reads, as other services want to know it.
#[derive(Clone, Debug, PartialEq, Eq)]
pub struct TwitterContextViewer {
    pub user_id: i64,
    pub client_application_id: i64,
    pub request_country_code: String,
    pub request_language_code: String,
}

/// A request for scored posts, with what is known about the reader so far.
#[derive(Clone, Debug, PartialEq, Eq, Default)]
pub struct ScoredPostsQuery {
    pub user_id: i64,
    pub client_app_id: i32,
    pub country_code: String,
    pub language_code: String,
    pub seen_ids: Vec<i64>,
    pub served_ids: Vec<i64>,
    pub in_network_only: bool,
    pub is_bottom_request: bool,
    pub bloom_filter_entries: Vec<ImpressionBloomFilterEntry>,
    pub user_action_sequence: Option<UserActionSequence>,
    pub user_features: UserFeatures,
    pub request_id: String,
}

impl ScoredPostsQuery {
    /// A request about whose reader nothing is known yet. It is told apart by
    /// `generated_id` and the id of the reader.
    pub fn new(
        user_id: i64,
        client_app_id: i32,
        country_code: String,
        language_code: String,
        seen_ids: Vec<i64>,
        served_ids: Vec<i64>,
        in_network_only: bool,
        is_bottom_request: bool,
        bloom_filter_entries: Vec<ImpressionBloomFilterEntry>,
        generated_id: &str,
    ) -> (query: ScoredPostsQuery)
        ensures
            query.user_id == user_id,
            query.client_app_id == client_app_id,
            query.country_code == country_code,
            query.language_code == language_code,
            query.seen_ids == seen_ids,
            query.served_ids == served_ids,
            query.in_network_only == in_network_only,
            query.is_bottom_request == is_bottom_request,
            query.bloom_filter_entries == bloom_filter_entries,
            query.user_action_sequence is None,
            query.user_features.is_empty(),
            query.request_id@ == generated_id@ + "-"@ + decimal_text(user_id as int),
    {
        let mut request_id = joined(generated_id, "-");
        append_decimal(&mut request_id, user_id);
        ScoredPostsQuery {
            user_id,
            client_app_id,
            country_code,
            language_code,
            seen_ids,
            served_ids,
            in_network_only,
            is_bottom_request,
            bloom_filter_entries,
            user_action_sequence: None,
            user_features: UserFeatures::default(),
            request_id,
        }
    }

    /// Who reads, as other services want to know it.
    pub fn get_viewer(&self) -> (viewer: Option<TwitterContextViewer>)
        ensures
            viewer == Some(
                (TwitterContextViewer {
                    user_id: self.user_id,
                    client_application_id: self.client_app_id as i64,
                    request_country_code: self.country_code,
                    request_language_code: self.language_code,
                }),
            ),
    {
        Some(
            TwitterContextViewer {
                user_id: self.user_id,
                client_application_id: self.client_app_id as i64,
                request_country_code: self.country_code.clone(),
                request_language_code: self.language_code.clone(),
            },
        )
    }
}

impl HasRequestId for ScoredPostsQuery {
    open spec fn request_id_text(&self) -> Seq<char> {
        self.request_id@
    }

    fn request_id(&self) -> (id: &str) {
        self.request_id.as_str()
    }
}

/// The entries hold the same bytes.
pub open spec fn same_entries(
    a: Seq<ImpressionBloomFilterEntry>,
    b: Seq<ImpressionBloomFilterEntry>,
) -> bool {
    &&& a.len() == b.len()
    &&& forall|i: int| 0 <= i < a.len() ==> (#[trigger] a[i]).encoded@ == b[i].encoded@
}

fn copy_bytes(bytes: &Vec<u8>) -> (copy: Vec<u8>)
    ensures
        copy@ == bytes@,
{
    let copy = bytes.clone();
    assert(copy@ =~= bytes@);
    copy
}

fn copy_ids(ids: &Vec<i64>) -> (copy: Vec<i64>)
    ensures
        copy@ == ids@,
{
    let copy = ids.clone();
    assert(copy@ =~= ids@);
    copy
}

fn copy_entries(entries: &Vec<ImpressionBloomFilterEntry>) -> (copies: Vec<
    ImpressionBloomFilterEntry,
>)
    ensures
        same_entries(copies@, entries@),
{
    let mut copies: Vec<ImpressionBloomFilterEntry> = Vec::with_capacity(entries.len());
    let mut i: usize = 0;
    while i < entries.len()
        invariant
            i <= entries.len(),
            copies@.len() == i,
            forall|n: int|
                0 <= n < i ==> (#[trigger] copies@[n]).encoded@ == entries@[n].encoded@,
        decreases entries.len() - i,
    {
        copies.push(ImpressionBloomFilterEntry { encoded: copy_bytes(&entries[i].encoded) });
        i = i + 1;
    }
    copies
}

impl Duplicable for ScoredPostsQuery {
    open spec fn is_copy_of(self, original: ScoredPostsQuery) -> bool {
        &&& self == ScoredPostsQuery {
            seen_ids: self.seen_ids,
            served_ids: self.served_ids,
            bloom_filter_entries: self.bloom_filter_entries,
            user_action_sequence: self.user_action_sequence,
            user_features: self.user_features,
            ..original
        }
        &&& self.seen_ids@ == original.seen_ids@
        &&& self.served_ids@ == original.served_ids@
        &&& same_entries(self.bloom_filter_entries@, original.bloom_filter_entries@)
        &&& match (self.user_action_sequence, original.user_action_sequence) {
            (Some(mine), Some(theirs)) => mine.encoded@ == theirs.encoded@,
            (None, None) => true,
            _ => false,
        }
        &&& self.user_features.same_as(original.user_features)
    }

    fn duplicate(&self) -> (copy: ScoredPostsQuery) {
        ScoredPostsQuery {
            user_id: self.user_id,
            client_app_id: self.client_app_id,
            country_code: self.country_code.clone(),
            language_code: self.language_code.clone(),
            seen_ids: copy_ids(&self.seen_ids),
            served_ids: copy_ids(&self.served_ids),
            in_network_only: self.in_network_only,
            is_bottom_request: self.is_bottom_request,
            bloom_filter_entries: copy_entries(&self.bloom_filter_entries),
            user_action_sequence: match &self.user_action_sequence {
                Some(sequence) => Some(
                    UserActionSequence { encoded: copy_bytes(&sequence.encoded) },
                ),
                None => None,
            },
            user_features: self.user_features.copied(),
            request_id: self.request_id.clone(),
        }
    }
}

} // verus!
