//! Turning batches of messages into posts and deletions.

use vstd::prelude::*;

use crate::seqs::{lemma_filter_map_add, lemma_filter_map_step, lemma_map_step};
use crate::thunder::post_store::PostStore;
use crate::thunder::posts::{LightPost, TweetDeleteEvent};
use crate::thunder::schema::{
    announced_post, create_event, delete_event, EventVariant, InNetworkEvent, KafkaMessage, Tweet,
    TweetCoreData, TweetCreateEvent, TweetEvent, TweetEventData, TweetMediaInfo,
};
use crate::thunder::store_model::{admitted, inserted, marked};

verus! {

// Parsing.

/// The payloads of `messages`, in order.
pub open spec fn payloads(messages: Seq<KafkaMessage>) -> Seq<Vec<u8>> {
    messages.filter_map(|message: KafkaMessage| message.payload)
}

/// The values that were parsed, in order.
pub open spec fn parsed_values<T, E>(results: Seq<Result<T, E>>) -> Seq<T> {
    results.filter_map(
        |result: Result<T, E>|
            match result {
                Ok(value) => Some(value),
                Err(_) => None,
            },
    )
}

/// `result` is something that `parse` may return for `payload`.
pub open spec fn is_outcome<T, E, F: Fn(&[u8]) -> Result<T, E>>(
    result: Result<T, E>,
    payload: Seq<u8>,
    parse: F,
) -> bool {
    exists|bytes: &[u8]| bytes@ == payload && #[trigger] call_ensures(parse, (bytes,), result)
}

/// `results` holds what `parse` returned for each payload of `messages`.
pub open spec fn is_parse_of<T, E, F: Fn(&[u8]) -> Result<T, E>>(
    results: Seq<Result<T, E>>,
    messages: Seq<KafkaMessage>,
    parse: F,
) -> bool {
    &&& results.len() == payloads(messages).len()
    &&& forall|i: int|
        0 <= i < results.len() ==> is_outcome(
            #[trigger] results[i],
            payloads(messages)[i]@,
            parse,
        )
}

/// How many payloads did not parse.
pub open spec fn failure_count<T, E>(results: Seq<Result<T, E>>) -> nat {
    results.filter(|result: Result<T, E>| result is Err).len()
}

/// `parse` returns the same for the same bytes.
pub open spec fn is_repeatable<T, E, F: Fn(&[u8]) -> Result<T, E>>(parse: F) -> bool {
    forall|a: &[u8], b: &[u8], one: Result<T, E>, other: Result<T, E>|
        a@ == b@ && #[trigger] call_ensures(parse, (a,), one) && #[trigger] call_ensures(
            parse,
            (b,),
            other,
        ) ==> one == other
}

/// What comes of parsing messages.
#[derive(Clone, Debug, PartialEq, Eq)]
pub struct ParsedMessages<T> {
    /// The values that were parsed, in the order of the messages.
    pub values: Vec<T>,
    /// How many payloads did not parse.
    pub failed: usize,
}

/// Parses the payload of each message. Messages without one, and payloads that
/// do not parse, are left out: one bad message does not spoil the batch. Those that
/// do not parse are counted.
pub fn deserialize_kafka_messages<T, E, F: Fn(&[u8]) -> Result<T, E>>(
    messages: &Vec<KafkaMessage>,
    deserializer: F,
) -> (parsed: ParsedMessages<T>)
    requires
        forall|bytes: &[u8]| #[trigger] call_requires(deserializer, (bytes,)),
    ensures
        exists|results: Seq<Result<T, E>>|
            {
                &&& #[trigger] is_parse_of(results, messages@, deserializer)
                &&& parsed.values@ == parsed_values(results)
                &&& parsed.failed == failure_count(results)
            },
        parsed.values@.len() + parsed.failed == payloads(messages@).len(),
{
    let ghost fails = |result: Result<T, E>| result is Err;
    let ghost payload = |message: KafkaMessage| message.payload;
    let ghost value = |result: Result<T, E>|
        match result {
            Ok(value) => Some(value),
            Err(_) => None,
        };
    let ghost mut results: Seq<Result<T, E>> = Seq::empty();
    let mut values: Vec<T> = Vec::with_capacity(messages.len());
    let mut failed: usize = 0;
    let mut i: usize = 0;
    assert(results.filter(fails).len() == 0) by {
        reveal(Seq::filter);
    }
    while i < messages.len()
        invariant
            i <= messages.len(),
            failed <= i,
            fails == (|result: Result<T, E>| result is Err),
            failed == results.filter(fails).len(),
            values@.len() + failed == results.len(),
            payload == (|message: KafkaMessage| message.payload),
            value == (|result: Result<T, E>|
                match result {
                    Ok(value) => Some(value),
                    Err(_) => None,
                }),
            forall|bytes: &[u8]| #[trigger] call_requires(deserializer, (bytes,)),
            is_parse_of(results, messages@.take(i as int), deserializer),
            values@ == results.filter_map(value),
        decreases messages.len() - i,
    {
        proof {
            lemma_filter_map_step(messages@, i as int, payload);
        }
        let ghost before = payloads(messages@.take(i as int));
        if let Some(bytes) = &messages[i].payload {
            let slice = bytes.as_slice();
            let result = deserializer(slice);
            proof {
                let next = results.push(result);
                assert(next.drop_last() =~= results);
                results.lemma_filter_push(result, fails);
                assert(payloads(messages@.take(i + 1)) == before.push(*bytes));
                assert forall|n: int| 0 <= n < next.len() implies is_outcome(
                    #[trigger] next[n],
                    payloads(messages@.take(i + 1))[n]@,
                    deserializer,
                ) by {
                    if n < results.len() {
                        assert(next[n] == results[n]);
                        assert(payloads(messages@.take(i + 1))[n] == before[n]);
                    } else {
                        assert(slice@ == payloads(messages@.take(i + 1))[n]@);
                        assert(call_ensures(deserializer, (slice,), next[n]));
                    }
                }
                results = next;
            }
            match result {
                Ok(value) => {
                    values.push(value);
                },
                Err(_) => {
                    failed = failed + 1;
                },
            }
        }
        i = i + 1;
    }
    assert(messages@.take(i as int) =~= messages@);
    assert(is_parse_of(results, messages@, deserializer));
    ParsedMessages { values, failed }
}

/// Where `parse` returns the same for the same bytes, parsing messages has one
/// outcome.
pub proof fn law_parsing_has_one_outcome<T, E, F: Fn(&[u8]) -> Result<T, E>>(
    messages: Seq<KafkaMessage>,
    one: Seq<Result<T, E>>,
    other: Seq<Result<T, E>>,
    parse: F,
)
    requires
        is_repeatable(parse),
        is_parse_of(one, messages, parse),
        is_parse_of(other, messages, parse),
    ensures
        one == other,
{
    assert forall|i: int| 0 <= i < one.len() implies one[i] == other[i] by {
        assert(is_outcome(one[i], payloads(messages)[i]@, parse));
        assert(is_outcome(other[i], payloads(messages)[i]@, parse));
    }
    assert(one =~= other);
}

/// Where `parse` returns the same for the same bytes, parsing two lists of messages
/// joined gives what parsing each gives, joined: the values in order, and as many
/// failures as both have together.
pub proof fn law_parsing_goes_list_by_list<T, E, F: Fn(&[u8]) -> Result<T, E>>(
    a: Seq<KafkaMessage>,
    b: Seq<KafkaMessage>,
    of_a: Seq<Result<T, E>>,
    of_b: Seq<Result<T, E>>,
    of_both: Seq<Result<T, E>>,
    parse: F,
)
    requires
        is_repeatable(parse),
        is_parse_of(of_a, a, parse),
        is_parse_of(of_b, b, parse),
        is_parse_of(of_both, a + b, parse),
    ensures
        of_both == of_a + of_b,
        parsed_values(of_both) == parsed_values(of_a) + parsed_values(of_b),
        failure_count(of_both) == failure_count(of_a) + failure_count(of_b),
{
    lemma_filter_map_add(a, b, |message: KafkaMessage| message.payload);
    let joined = of_a + of_b;
    assert forall|i: int| 0 <= i < joined.len() implies is_outcome(
        #[trigger] joined[i],
        payloads(a + b)[i]@,
        parse,
    ) by {
        if i < of_a.len() {
            assert(is_outcome(of_a[i], payloads(a)[i]@, parse));
        } else {
            assert(is_outcome(of_b[i - of_a.len()], payloads(b)[i - of_a.len()]@, parse));
        }
    }
    law_parsing_has_one_outcome(a + b, of_both, joined, parse);
    lemma_filter_map_add(
        of_a,
        of_b,
        |result: Result<T, E>|
            match result {
                Ok(value) => Some(value),
                Err(_) => None,
            },
    );
    Seq::filter_distributes_over_add(of_a, of_b, |result: Result<T, E>| result is Err);
}

// Events about tweets.

/// Whether a tweet counts as a video: exactly one attachment, which is a video
/// at least `min_duration_ms` long.
pub open spec fn has_eligible_video(tweet: Tweet, min_duration_ms: i32) -> bool {
    &&& tweet.media is Some
    &&& tweet.media->0@.len() == 1
    &&& tweet.media->0@[0].media_info matches Some(TweetMediaInfo::VideoInfo(video))
    &&& video.duration_millis matches Some(duration)
    &&& duration >= min_duration_ms
}

/// Whether a tweet counts as a video.
pub fn is_eligible_video(tweet: &Tweet, min_duration_ms: i32) -> (eligible: bool)
    ensures
        eligible == has_eligible_video(*tweet, min_duration_ms),
{
    let media = match &tweet.media {
        Some(media) => media,
        None => return false,
    };
    if media.len() != 1 {
        return false;
    }
    match media[0].media_info {
        Some(TweetMediaInfo::VideoInfo(video)) => match video.duration_millis {
            Some(duration) => duration >= min_duration_ms,
            None => false,
        },
        _ => false,
    }
}

/// Deleted so long after its creation that nobody can hold it any more.
pub open spec fn is_beyond_retention(created_at: i64, now: i64, retention: i64) -> bool {
    now - created_at > retention
}

/// Whether an event names everything that is read from it.
pub open spec fn is_complete(event: TweetEvent, now: i64, retention: i64) -> bool {
    match event.data {
        None => false,
        Some(TweetEventData::TweetCreateEvent(created)) => {
            &&& created.user_id is Some
            &&& created.tweet matches Some(tweet)
            &&& tweet.id is Some
            &&& tweet.core_data matches Some(core)
            &&& core.nullcast == Some(true) || core.created_at_secs is Some
        },
        Some(TweetEventData::TweetDeleteEvent(deleted)) => {
            &&& deleted matches Some(tweet)
            &&& tweet.core_data matches Some(core)
            &&& core.created_at_secs matches Some(created_at)
            &&& is_beyond_retention(created_at, now, retention) || tweet.id is Some
        },
        Some(TweetEventData::QuotedTweetDeleteEvent(quoting)) => quoting is Some,
        Some(TweetEventData::Other) => true,
    }
}

/// Whether an event names everything that is read from it.
pub fn is_complete_event(event: &TweetEvent, now: i64, retention: i64) -> (complete: bool)
    ensures
        complete == is_complete(*event, now, retention),
{
    match &event.data {
        None => false,
        Some(TweetEventData::TweetCreateEvent(created)) => match &created.tweet {
            None => false,
            Some(tweet) => match &tweet.core_data {
                None => false,
                Some(core) => {
                    let is_nullcast = match core.nullcast {
                        Some(nullcast) => nullcast,
                        None => false,
                    };
                    created.user_id.is_some() && tweet.id.is_some() && (is_nullcast
                        || core.created_at_secs.is_some())
                },
            },
        },
        Some(TweetEventData::TweetDeleteEvent(deleted)) => match deleted {
            None => false,
            Some(tweet) => match &tweet.core_data {
                None => false,
                Some(core) => match core.created_at_secs {
                    None => false,
                    Some(created_at) => now as i128 - created_at as i128 > retention as i128
                        || tweet.id.is_some(),
                },
            },
        },
        Some(TweetEventData::QuotedTweetDeleteEvent(quoting)) => quoting.is_some(),
        Some(TweetEventData::Other) => true,
    }
}

/// The post that a tweet becomes.
pub open spec fn light_post(
    tweet: Tweet,
    core: TweetCoreData,
    author_id: i64,
    min_duration_ms: i32,
) -> LightPost {
    LightPost {
        post_id: tweet.id->0,
        author_id,
        created_at: core.created_at_secs->0,
        in_reply_to_post_id: match core.reply {
            Some(reply) => reply.in_reply_to_status_id,
            None => None,
        },
        in_reply_to_user_id: match core.reply {
            Some(reply) => reply.in_reply_to_user_id,
            None => None,
        },
        is_retweet: core.share is Some,
        is_reply: core.reply is Some,
        source_post_id: match core.share {
            Some(share) => share.source_status_id,
            None => None,
        },
        source_user_id: match core.share {
            Some(share) => share.source_user_id,
            None => None,
        },
        has_video: has_eligible_video(tweet, min_duration_ms),
        conversation_id: core.conversation_id,
    }
}

/// The post that an event brings: that of a creation, unless the tweet is kept
/// out of timelines.
pub open spec fn created_post(event: TweetEvent, min_duration_ms: i32) -> Option<LightPost> {
    match event.data {
        Some(TweetEventData::TweetCreateEvent(created)) => {
            let tweet = created.tweet->0;
            let core = tweet.core_data->0;
            if core.nullcast == Some(true) {
                None
            } else {
                Some(light_post(tweet, core, created.user_id->0, min_duration_ms))
            }
        },
        _ => None,
    }
}

/// The post that an event withdraws: a deleted tweet, unless it is older than
/// the retention period, or a tweet that quotes a deleted one.
pub open spec fn deleted_post(event: TweetEvent, now: i64, retention: i64) -> Option<i64> {
    match event.data {
        Some(TweetEventData::TweetDeleteEvent(deleted)) => {
            let tweet = deleted->0;
            if is_beyond_retention(tweet.core_data->0.created_at_secs->0, now, retention) {
                None
            } else {
                tweet.id
            }
        },
        Some(TweetEventData::QuotedTweetDeleteEvent(quoting)) => quoting,
        _ => None,
    }
}

fn light_post_of(tweet: &Tweet, core: &TweetCoreData, author_id: i64, min_duration_ms: i32) -> (
    post: LightPost)
    requires
        tweet.id is Some,
        core.created_at_secs is Some,
    ensures
        post == light_post(*tweet, *core, author_id, min_duration_ms),
{
    LightPost {
        post_id: tweet.id.unwrap(),
        author_id,
        created_at: core.created_at_secs.unwrap(),
        in_reply_to_post_id: match core.reply {
            Some(reply) => reply.in_reply_to_status_id,
            None => None,
        },
        in_reply_to_user_id: match core.reply {
            Some(reply) => reply.in_reply_to_user_id,
            None => None,
        },
        is_retweet: core.share.is_some(),
        is_reply: core.reply.is_some(),
        source_post_id: match core.share {
            Some(share) => share.source_status_id,
            None => None,
        },
        source_user_id: match core.share {
            Some(share) => share.source_user_id,
            None => None,
        },
        has_video: is_eligible_video(tweet, min_duration_ms),
        conversation_id: core.conversation_id,
    }
}

/// Sorts a batch of events at time `now` into the posts that they bring and the
/// posts that they withdraw, in order. Events of other kinds are ignored.
pub fn process_message_batch(
    events: &Vec<TweetEvent>,
    now: i64,
    post_retention_sec: i64,
    min_duration_ms: i32,
) -> (split: (Vec<LightPost>, Vec<i64>))
    requires
        forall|i: int|
            0 <= i < events@.len() ==> is_complete(
                #[trigger] events@[i],
                now,
                post_retention_sec,
            ),
    ensures
        split.0@ == events@.filter_map(|event: TweetEvent| created_post(event, min_duration_ms)),
        split.1@ == events@.filter_map(
            |event: TweetEvent| deleted_post(event, now, post_retention_sec),
        ),
{
    let ghost brings = |event: TweetEvent| created_post(event, min_duration_ms);
    let ghost withdraws = |event: TweetEvent| deleted_post(event, now, post_retention_sec);
    let mut create_tweets: Vec<LightPost> = Vec::new();
    let mut delete_tweets: Vec<i64> = Vec::new();
    let mut i: usize = 0;
    while i < events.len()
        invariant
            i <= events.len(),
            brings == (|event: TweetEvent| created_post(event, min_duration_ms)),
            withdraws == (|event: TweetEvent| deleted_post(event, now, post_retention_sec)),
            forall|n: int|
                0 <= n < events@.len() ==> is_complete(
                    #[trigger] events@[n],
                    now,
                    post_retention_sec,
                ),
            create_tweets@ == events@.take(i as int).filter_map(brings),
            delete_tweets@ == events@.take(i as int).filter_map(withdraws),
        decreases events.len() - i,
    {
        let event = &events[i];
        proof {
            assert(is_complete(*event, now, post_retention_sec));
            lemma_filter_map_step(events@, i as int, brings);
            lemma_filter_map_step(events@, i as int, withdraws);
        }
        match &event.data {
            Some(TweetEventData::TweetCreateEvent(created)) => {
                if let Some(tweet) = &created.tweet {
                    if let Some(core) = &tweet.core_data {
                        let is_nullcast = match core.nullcast {
                            Some(nullcast) => nullcast,
                            None => false,
                        };
                        if !is_nullcast {
                            create_tweets.push(
                                light_post_of(
                                    tweet,
                                    core,
                                    created.user_id.unwrap(),
                                    min_duration_ms,
                                ),
                            );
                        }
                    }
                }
            },
            Some(TweetEventData::TweetDeleteEvent(deleted)) => {
                if let Some(tweet) = deleted {
                    if let Some(core) = &tweet.core_data {
                        let created_at = core.created_at_secs.unwrap();
                        if now as i128 - created_at as i128 <= post_retention_sec as i128 {
                            delete_tweets.push(tweet.id.unwrap());
                        }
                    }
                }
            },
            Some(TweetEventData::QuotedTweetDeleteEvent(quoting)) => {
                delete_tweets.push(quoting.unwrap());
            },
            _ => {},
        }
        i = i + 1;
    }
    assert(events@.take(i as int) =~= events@);
    (create_tweets, delete_tweets)
}

fn create_event_of(post: &LightPost) -> (event: InNetworkEvent)
    ensures
        event == create_event(*post),
{
    InNetworkEvent {
        event_variant: Some(
            EventVariant::TweetCreateEvent(
                TweetCreateEvent {
                    post_id: post.post_id,
                    author_id: post.author_id,
                    created_at: post.created_at,
                    in_reply_to_post_id: post.in_reply_to_post_id,
                    in_reply_to_user_id: post.in_reply_to_user_id,
                    is_retweet: post.is_retweet,
                    is_reply: post.is_reply,
                    source_post_id: post.source_post_id,
                    source_user_id: post.source_user_id,
                    has_video: post.has_video,
                    conversation_id: post.conversation_id,
                },
            ),
        ),
    }
}

/// The compact events that pass a batch on: its posts first, then its deletions,
/// which carry the time `now`.
pub fn events_to_send(create_tweets: &Vec<LightPost>, delete_tweets: &Vec<i64>, now: i64) -> (
    events: Vec<InNetworkEvent>)
    ensures
        events@ == create_tweets@.map_values(|post: LightPost| create_event(post))
            + delete_tweets@.map_values(|post_id: i64| delete_event(post_id, now)),
{
    let ghost created = |post: LightPost| create_event(post);
    let ghost deleted = |post_id: i64| delete_event(post_id, now);
    let mut events: Vec<InNetworkEvent> = Vec::new();
    let mut i: usize = 0;
    while i < create_tweets.len()
        invariant
            i <= create_tweets.len(),
            created == (|post: LightPost| create_event(post)),
            events@ == create_tweets@.take(i as int).map_values(created),
        decreases create_tweets.len() - i,
    {
        proof {
            lemma_map_step(create_tweets@, i as int, created);
        }
        events.push(create_event_of(&create_tweets[i]));
        i = i + 1;
    }
    assert(create_tweets@.take(i as int) =~= create_tweets@);
    let ghost creations = events@;
    let mut j: usize = 0;
    assert(creations + delete_tweets@.take(0).map_values(deleted) =~= creations);
    while j < delete_tweets.len()
        invariant
            j <= delete_tweets.len(),
            deleted == (|post_id: i64| delete_event(post_id, now)),
            events@ == creations + delete_tweets@.take(j as int).map_values(deleted),
        decreases delete_tweets.len() - j,
    {
        proof {
            lemma_map_step(delete_tweets@, j as int, deleted);
        }
        events.push(
            InNetworkEvent {
                event_variant: Some(
                    EventVariant::TweetDeleteEvent(
                        TweetDeleteEvent { post_id: delete_tweets[j], deleted_at: now },
                    ),
                ),
            },
        );
        j = j + 1;
    }
    assert(delete_tweets@.take(j as int) =~= delete_tweets@);
    events
}

// Compact events.

/// The post that a compact event brings.
pub open spec fn brought_post(event: InNetworkEvent) -> Option<LightPost> {
    match event.event_variant {
        Some(EventVariant::TweetCreateEvent(created)) => Some(announced_post(created)),
        _ => None,
    }
}

/// The deletion that a compact event tells of.
pub open spec fn brought_deletion(event: InNetworkEvent) -> Option<TweetDeleteEvent> {
    match event.event_variant {
        Some(EventVariant::TweetDeleteEvent(deleted)) => Some(deleted),
        _ => None,
    }
}

/// Sorts a batch of compact events into the posts and the deletions that they
/// tell of, in order.
pub fn deserialize_batch(events: &Vec<InNetworkEvent>) -> (split: (
    Vec<LightPost>,
    Vec<TweetDeleteEvent>,
))
    requires
        forall|i: int| 0 <= i < events@.len() ==> (#[trigger] events@[i]).event_variant is Some,
    ensures
        split.0@ == events@.filter_map(|event: InNetworkEvent| brought_post(event)),
        split.1@ == events@.filter_map(|event: InNetworkEvent| brought_deletion(event)),
{
    let ghost brings = |event: InNetworkEvent| brought_post(event);
    let ghost withdraws = |event: InNetworkEvent| brought_deletion(event);
    let mut create_tweets: Vec<LightPost> = Vec::new();
    let mut delete_tweets: Vec<TweetDeleteEvent> = Vec::new();
    let mut i: usize = 0;
    while i < events.len()
        invariant
            i <= events.len(),
            brings == (|event: InNetworkEvent| brought_post(event)),
            withdraws == (|event: InNetworkEvent| brought_deletion(event)),
            create_tweets@ == events@.take(i as int).filter_map(brings),
            delete_tweets@ == events@.take(i as int).filter_map(withdraws),
        decreases events.len() - i,
    {
        proof {
            lemma_filter_map_step(events@, i as int, brings);
            lemma_filter_map_step(events@, i as int, withdraws);
        }
        match events[i].event_variant {
            Some(EventVariant::TweetCreateEvent(created)) => {
                create_tweets.push(
                    LightPost {
                        post_id: created.post_id,
                        author_id: created.author_id,
                        created_at: created.created_at,
                        in_reply_to_post_id: created.in_reply_to_post_id,
                        in_reply_to_user_id: created.in_reply_to_user_id,
                        is_retweet: created.is_retweet,
                        is_reply: created.is_reply || created.in_reply_to_post_id.is_some()
                            || created.in_reply_to_user_id.is_some(),
                        source_post_id: created.source_post_id,
                        source_user_id: created.source_user_id,
                        has_video: created.has_video,
                        conversation_id: created.conversation_id,
                    },
                );
            },
            Some(EventVariant::TweetDeleteEvent(deleted)) => {
                delete_tweets.push(deleted);
            },
            None => {},
        }
        i = i + 1;
    }
    assert(events@.take(i as int) =~= events@);
    (create_tweets, delete_tweets)
}

/// Takes the posts and the deletions of a batch into the store at time `now`: the
/// posts first, so that a deletion in the same batch prevails.
pub fn apply_batch_at(
    store: &mut PostStore,
    light_posts: Vec<LightPost>,
    delete_posts: Vec<TweetDeleteEvent>,
    now: u64,
)
    ensures
        final(store)@ == marked(
            inserted(
                old(store)@,
                admitted(light_posts@, now, old(store).config().retention_seconds),
            ),
            delete_posts@,
            old(store).config().limits.delete_event_key,
        ),
        final(store).config() == old(store).config(),
{
    store.insert_posts_at(light_posts, now);
    store.mark_as_deleted(delete_posts);
}

/// A post that the feeder passes on arrives as it was: the compact event of a
/// post whose reply flag covers what it answers announces that same post.
pub proof fn law_posts_survive_the_exchange(post: LightPost)
    requires
        post.in_reply_to_post_id is Some || post.in_reply_to_user_id is Some ==> post.is_reply,
    ensures
        brought_post(create_event(post)) == Some(post),
{
}

/// Every post that comes out of an event about tweets survives the exchange.
pub proof fn law_created_posts_survive_the_exchange(event: TweetEvent, min_duration_ms: i32)
    requires
        created_post(event, min_duration_ms) is Some,
    ensures
        brought_post(create_event(created_post(event, min_duration_ms)->0)) == created_post(
            event,
            min_duration_ms,
        ),
{
}

/// Every deletion that the feeder passes on arrives as it was.
pub proof fn law_deletions_survive_the_exchange(post_id: i64, now: i64)
    ensures
        brought_deletion(delete_event(post_id, now)) == Some(
            TweetDeleteEvent { post_id, deleted_at: now },
        ),
{
}

} // verus!
