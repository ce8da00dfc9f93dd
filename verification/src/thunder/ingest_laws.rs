//! Which posts and which withdrawals the events bring, in terms of what the events say.

use vstd::prelude::*;

use crate::seqs::lemma_filter_map_add;
use crate::thunder::ingest::{
    brought_deletion, brought_post, created_post, deleted_post, failure_count, has_eligible_video,
    is_complete, is_outcome, is_parse_of, parsed_values, payloads,
};
use crate::thunder::posts::{LightPost, TweetDeleteEvent};
use crate::thunder::schema::{
    create_event, delete_event, EventVariant, InNetworkEvent, KafkaMessage, Tweet, TweetCoreData,
    TweetCreated, TweetEvent, TweetEventData, TweetMediaInfo,
};

verus! {

// Events about tweets.

/// The creation of a tweet brings a post exactly if the tweet is not kept out of
/// timelines, whether it says so or says nothing of it, and the post has the id, the
/// author, the time and the conversation of the tweet.
pub proof fn law_creations_bring_their_post(
    event: TweetEvent,
    created: TweetCreated,
    tweet: Tweet,
    core: TweetCoreData,
    min_duration_ms: i32,
)
    requires
        event.data == Some(TweetEventData::TweetCreateEvent(created)),
        created.tweet == Some(tweet),
        tweet.core_data == Some(core),
        created.user_id is Some,
        tweet.id is Some,
        core.created_at_secs is Some,
    ensures
        core.nullcast == Some(true) ==> created_post(event, min_duration_ms) is None,
        core.nullcast is None || core.nullcast == Some(false) ==> created_post(
            event,
            min_duration_ms,
        ) is Some,
        created_post(event, min_duration_ms) matches Some(post) ==> {
            &&& tweet.id == Some(post.post_id)
            &&& created.user_id == Some(post.author_id)
            &&& core.created_at_secs == Some(post.created_at)
            &&& post.conversation_id == core.conversation_id
        },
{
}

/// The post of a tweet is a reply exactly if the tweet is, and then names what the tweet
/// answers; it is a retweet exactly if the tweet is, and then names what the tweet repeats.
pub proof fn law_created_posts_keep_their_relations(
    event: TweetEvent,
    created: TweetCreated,
    tweet: Tweet,
    core: TweetCoreData,
    min_duration_ms: i32,
    post: LightPost,
)
    requires
        event.data == Some(TweetEventData::TweetCreateEvent(created)),
        created.tweet == Some(tweet),
        tweet.core_data == Some(core),
        created_post(event, min_duration_ms) == Some(post),
    ensures
        post.is_reply <==> core.reply is Some,
        core.reply is None ==> post.in_reply_to_post_id is None && post.in_reply_to_user_id is None,
        core.reply matches Some(reply) ==> post.in_reply_to_post_id == reply.in_reply_to_status_id
            && post.in_reply_to_user_id == reply.in_reply_to_user_id,
        post.is_retweet <==> core.share is Some,
        core.share is None ==> post.source_post_id is None && post.source_user_id is None,
        core.share matches Some(share) ==> post.source_post_id == share.source_status_id
            && post.source_user_id == share.source_user_id,
        post.has_video == has_eligible_video(tweet, min_duration_ms),
{
}

/// A tweet counts as a video exactly if it has one attachment, and that is a video whose
/// length is known and not below the least.
pub proof fn law_videos_are_single_and_long_enough(tweet: Tweet, min_duration_ms: i32)
    ensures
        tweet.media is None ==> !has_eligible_video(tweet, min_duration_ms),
        tweet.media matches Some(media) ==> {
            &&& media@.len() != 1 ==> !has_eligible_video(tweet, min_duration_ms)
            &&& media@.len() == 1 ==> match media@[0].media_info {
                None => !has_eligible_video(tweet, min_duration_ms),
                Some(TweetMediaInfo::Other) => !has_eligible_video(tweet, min_duration_ms),
                Some(TweetMediaInfo::VideoInfo(video)) => match video.duration_millis {
                    None => !has_eligible_video(tweet, min_duration_ms),
                    Some(duration) => if duration < min_duration_ms {
                        !has_eligible_video(tweet, min_duration_ms)
                    } else {
                        has_eligible_video(tweet, min_duration_ms)
                    },
                },
            }
        },
{
}

/// The deletion of a tweet withdraws it exactly if the tweet is at most as old as posts
/// are kept, and brings no post.
pub proof fn law_deletions_withdraw_recent_tweets(
    event: TweetEvent,
    tweet: Tweet,
    core: TweetCoreData,
    created_at: i64,
    now: i64,
    retention: i64,
    min_duration_ms: i32,
)
    requires
        event.data == Some(TweetEventData::TweetDeleteEvent(Some(tweet))),
        tweet.core_data == Some(core),
        core.created_at_secs == Some(created_at),
        tweet.id is Some,
    ensures
        created_at + retention >= now ==> deleted_post(event, now, retention) == tweet.id,
        created_at + retention < now ==> deleted_post(event, now, retention) is None,
        created_post(event, min_duration_ms) is None,
{
}

/// The deletion of a quoted tweet withdraws the tweet that quotes it, however old; a
/// creation withdraws nothing; events of other kinds do neither.
pub proof fn law_other_events_withdraw_or_do_nothing(
    event: TweetEvent,
    now: i64,
    retention: i64,
    min_duration_ms: i32,
)
    ensures
        event.data matches Some(TweetEventData::QuotedTweetDeleteEvent(quoting)) ==> deleted_post(
            event,
            now,
            retention,
        ) == quoting && created_post(event, min_duration_ms) is None,
        event.data matches Some(TweetEventData::TweetCreateEvent(_)) ==> deleted_post(
            event,
            now,
            retention,
        ) is None,
        event.data == Some(TweetEventData::Other) || event.data is None ==> deleted_post(
            event,
            now,
            retention,
        ) is None && created_post(event, min_duration_ms) is None,
{
}

/// An event is complete if nothing is missing that is read from it: of a creation the
/// tweet with its id, author and central data, and its time unless it is kept out of
/// timelines; of a deletion the tweet's time, and its id unless it is too old; of the
/// deletion of a quoted tweet the tweet that quotes it.
pub proof fn law_when_events_are_complete(event: TweetEvent, now: i64, retention: i64)
    ensures
        event.data is None ==> !is_complete(event, now, retention),
        event.data == Some(TweetEventData::Other) ==> is_complete(event, now, retention),
        event.data matches Some(TweetEventData::QuotedTweetDeleteEvent(quoting)) ==> (is_complete(
            event,
            now,
            retention,
        ) <==> quoting is Some),
        event.data matches Some(TweetEventData::TweetCreateEvent(created)) ==> {
            &&& created.user_id is None || created.tweet is None ==> !is_complete(
                event,
                now,
                retention,
            )
            &&& created.tweet matches Some(tweet) ==> {
                &&& tweet.id is None || tweet.core_data is None ==> !is_complete(
                    event,
                    now,
                    retention,
                )
                &&& tweet.core_data matches Some(core) ==> {
                    &&& core.created_at_secs is None && core.nullcast != Some(true)
                        ==> !is_complete(event, now, retention)
                    &&& created.user_id is Some && tweet.id is Some && (
                    core.created_at_secs is Some || core.nullcast == Some(true)) ==> is_complete(
                        event,
                        now,
                        retention,
                    )
                }
            }
        },
        event.data matches Some(TweetEventData::TweetDeleteEvent(deleted)) ==> {
            &&& deleted is None ==> !is_complete(event, now, retention)
            &&& deleted matches Some(tweet) ==> {
                &&& tweet.core_data is None ==> !is_complete(event, now, retention)
                &&& tweet.core_data matches Some(core) ==> {
                    &&& core.created_at_secs is None ==> !is_complete(event, now, retention)
                    &&& core.created_at_secs matches Some(created_at) ==> (is_complete(
                        event,
                        now,
                        retention,
                    ) <==> tweet.id is Some || created_at + retention < now)
                }
            }
        },
{
}

/// A batch is sorted event by event: what its beginning brings stands before what its end
/// brings, and an event alone brings what it says.
pub proof fn law_batches_are_sorted_event_by_event(
    events: Seq<TweetEvent>,
    more: Seq<TweetEvent>,
    event: TweetEvent,
    now: i64,
    retention: i64,
    min_duration_ms: i32,
)
    ensures
        ({
            let brings = |e: TweetEvent| created_post(e, min_duration_ms);
            let withdraws = |e: TweetEvent| deleted_post(e, now, retention);
            &&& (events + more).filter_map(brings) == events.filter_map(brings) + more.filter_map(
                brings,
            )
            &&& (events + more).filter_map(withdraws) == events.filter_map(withdraws)
                + more.filter_map(withdraws)
            &&& seq![event].filter_map(brings) == match created_post(event, min_duration_ms) {
                Some(post) => seq![post],
                None => Seq::<LightPost>::empty(),
            }
            &&& seq![event].filter_map(withdraws) == match deleted_post(event, now, retention) {
                Some(id) => seq![id],
                None => Seq::<i64>::empty(),
            }
        }),
{
    let brings = |e: TweetEvent| created_post(e, min_duration_ms);
    let withdraws = |e: TweetEvent| deleted_post(e, now, retention);
    lemma_filter_map_add(events, more, brings);
    lemma_filter_map_add(events, more, withdraws);
    lemma_filter_map_one(event, brings);
    lemma_filter_map_one(event, withdraws);
}

proof fn lemma_filter_map_one<A, B>(x: A, f: spec_fn(A) -> Option<B>)
    ensures
        seq![x].filter_map(f) == match f(x) {
            Some(y) => seq![y],
            None => Seq::<B>::empty(),
        },
{
    let one = seq![x];
    assert(one.drop_last() =~= Seq::<A>::empty());
    assert(one.drop_last().filter_map(f) =~= Seq::<B>::empty());
    match f(x) {
        Some(y) => {
            assert(one.filter_map(f) =~= seq![y]);
        },
        None => {},
    }
}

// Compact events.

/// A compact creation brings its post, field by field; it counts as a reply if it says so
/// or names what it answers. It withdraws nothing.
pub proof fn law_compact_creations_bring_their_post(event: InNetworkEvent)
    ensures
        event.event_variant matches Some(EventVariant::TweetCreateEvent(created)) ==> {
            &&& brought_deletion(event) is None
            &&& brought_post(event) matches Some(post) && {
                &&& post.post_id == created.post_id
                &&& post.author_id == created.author_id
                &&& post.created_at == created.created_at
                &&& post.in_reply_to_post_id == created.in_reply_to_post_id
                &&& post.in_reply_to_user_id == created.in_reply_to_user_id
                &&& post.is_retweet == created.is_retweet
                &&& created.is_reply ==> post.is_reply
                &&& created.in_reply_to_post_id is Some ==> post.is_reply
                &&& created.in_reply_to_user_id is Some ==> post.is_reply
                &&& !created.is_reply && created.in_reply_to_post_id is None
                    && created.in_reply_to_user_id is None ==> !post.is_reply
                &&& post.source_post_id == created.source_post_id
                &&& post.source_user_id == created.source_user_id
                &&& post.has_video == created.has_video
                &&& post.conversation_id == created.conversation_id
            }
        },
        event.event_variant matches Some(EventVariant::TweetDeleteEvent(deleted)) ==> {
            &&& brought_post(event) is None
            &&& brought_deletion(event) matches Some(withdrawal) && withdrawal.post_id
                == deleted.post_id && withdrawal.deleted_at == deleted.deleted_at
        },
        event.event_variant is None ==> brought_post(event) is None && brought_deletion(
            event,
        ) is None,
{
}

/// The compact event of a post says what the post says, field by field, and that of a
/// deletion names the post and the time.
pub proof fn law_compact_events_say_what_is_known(post: LightPost, post_id: i64, now: i64)
    ensures
        create_event(post).event_variant matches Some(EventVariant::TweetCreateEvent(created)) && {
            &&& created.post_id == post.post_id
            &&& created.author_id == post.author_id
            &&& created.created_at == post.created_at
            &&& created.in_reply_to_post_id == post.in_reply_to_post_id
            &&& created.in_reply_to_user_id == post.in_reply_to_user_id
            &&& created.is_retweet == post.is_retweet
            &&& created.is_reply == post.is_reply
            &&& created.source_post_id == post.source_post_id
            &&& created.source_user_id == post.source_user_id
            &&& created.has_video == post.has_video
            &&& created.conversation_id == post.conversation_id
        },
        delete_event(post_id, now).event_variant matches Some(
            EventVariant::TweetDeleteEvent(deleted),
        ) && deleted.post_id == post_id && deleted.deleted_at == now,
{
}

/// A batch of compact events is sorted event by event.
pub proof fn law_compact_batches_are_sorted_event_by_event(
    events: Seq<InNetworkEvent>,
    more: Seq<InNetworkEvent>,
    event: InNetworkEvent,
)
    ensures
        ({
            let brings = |e: InNetworkEvent| brought_post(e);
            let withdraws = |e: InNetworkEvent| brought_deletion(e);
            &&& (events + more).filter_map(brings) == events.filter_map(brings) + more.filter_map(
                brings,
            )
            &&& (events + more).filter_map(withdraws) == events.filter_map(withdraws)
                + more.filter_map(withdraws)
            &&& seq![event].filter_map(brings) == match brought_post(event) {
                Some(post) => seq![post],
                None => Seq::<LightPost>::empty(),
            }
            &&& seq![event].filter_map(withdraws) == match brought_deletion(event) {
                Some(withdrawal) => seq![withdrawal],
                None => Seq::<TweetDeleteEvent>::empty(),
            }
        }),
{
    let brings = |e: InNetworkEvent| brought_post(e);
    let withdraws = |e: InNetworkEvent| brought_deletion(e);
    lemma_filter_map_add(events, more, brings);
    lemma_filter_map_add(events, more, withdraws);
    lemma_filter_map_one(event, brings);
    lemma_filter_map_one(event, withdraws);
}

// Parsing.

/// The payloads of a batch are those of its messages, in order; a message without one is
/// passed over.
pub proof fn law_payloads_are_taken_message_by_message(
    messages: Seq<KafkaMessage>,
    more: Seq<KafkaMessage>,
    message: KafkaMessage,
)
    ensures
        payloads(messages + more) == payloads(messages) + payloads(more),
        message.payload matches Some(bytes) ==> payloads(seq![message]) == seq![bytes],
        message.payload is None ==> payloads(seq![message]).len() == 0,
        payloads(Seq::empty()).len() == 0,
{
    let payload = |m: KafkaMessage| m.payload;
    lemma_filter_map_add(messages, more, payload);
    lemma_filter_map_one(message, payload);
}

/// The values of a batch are those that parsed, in order; the others are counted.
pub proof fn law_values_are_taken_result_by_result<T, E>(
    results: Seq<Result<T, E>>,
    more: Seq<Result<T, E>>,
    result: Result<T, E>,
)
    ensures
        parsed_values(results + more) == parsed_values(results) + parsed_values(more),
        result matches Ok(value) ==> parsed_values(seq![result]) == seq![value] && failure_count(
            seq![result],
        ) == 0,
        result is Err ==> parsed_values(seq![result]).len() == 0 && failure_count(seq![result])
            == 1,
        failure_count(results + more) == failure_count(results) + failure_count(more),
        failure_count(Seq::<Result<T, E>>::empty()) == 0,
        parsed_values(Seq::<Result<T, E>>::empty()).len() == 0,
{
    let value = |r: Result<T, E>|
        match r {
            Ok(value) => Some(value),
            Err(_) => None,
        };
    let fails = |r: Result<T, E>| r is Err;
    lemma_filter_map_add(results, more, value);
    lemma_filter_map_one(result, value);
    Seq::filter_distributes_over_add(results, more, fails);
    let one = seq![result];
    assert(one.drop_last() =~= Seq::<Result<T, E>>::empty());
    reveal(Seq::filter);
    assert(Seq::<Result<T, E>>::empty().filter(fails).len() == 0);
    assert(one.drop_last().filter(fails).len() == 0);
}

/// There is one result for each payload, and it is something that the parser returns for
/// the bytes of that payload.
pub proof fn law_each_payload_is_parsed<T, E, F: Fn(&[u8]) -> Result<T, E>>(
    results: Seq<Result<T, E>>,
    messages: Seq<KafkaMessage>,
    parse: F,
    i: int,
)
    requires
        is_parse_of(results, messages, parse),
        0 <= i < payloads(messages).len(),
    ensures
        results.len() == payloads(messages).len(),
        exists|bytes: &[u8]|
            bytes@ == payloads(messages)[i]@ && #[trigger] call_ensures(
                parse,
                (bytes,),
                results[i],
            ),
{
    assert(is_outcome(results[i], payloads(messages)[i]@, parse));
}

} // verus!
