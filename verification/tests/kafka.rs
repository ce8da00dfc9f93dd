use for_you_feed::thunder::ingest::{
    apply_batch_at, deserialize_batch, deserialize_kafka_messages, events_to_send,
    is_complete_event, is_eligible_video, process_message_batch, ParsedMessages,
};
use for_you_feed::thunder::launch::{
    feeding_consumer, feeding_producer, serving_consumer, spawn_processing_threads, start_kafka,
    KafkaArgs, KafkaPlan, StartError, FEEDER_FETCH_BYTES, SERVER_FETCH_BYTES,
};
use for_you_feed::thunder::listener::{
    FeederAction, FeederEvent, FeederListener, ServerAction, ServerEvent, ServerListener,
    FEEDER_POLL_SIZE, MAX_CONCURRENT_BATCHES, POLL_RETRY_MS,
};
use for_you_feed::thunder::partitions::{assign_partitions, partition_ids};
use for_you_feed::thunder::post_store::{PostStore, StoreLimits};
use for_you_feed::thunder::posts::{LightPost, TweetDeleteEvent};
use for_you_feed::thunder::schema::{
    EventVariant, InNetworkEvent, KafkaMessage, Tweet, TweetCoreData, TweetCreateEvent,
    TweetCreated, TweetEvent, TweetEventData, TweetMedia, TweetMediaInfo, TweetReply, TweetShare,
    TweetVideoInfo,
};

fn message(payload: Option<&[u8]>) -> KafkaMessage {
    KafkaMessage { payload: payload.map(|bytes| bytes.to_vec()) }
}

fn parse(bytes: &[u8]) -> Result<u8, String> {
    match bytes.first() {
        Some(byte) => Ok(*byte),
        None => Err("empty".to_string()),
    }
}

#[test]
fn messages_without_payload_and_bad_payloads_are_left_out() {
    let messages = vec![
        message(Some(&[5])),
        message(None),
        message(Some(&[])),
        message(Some(&[7, 8])),
    ];
    let parsed = deserialize_kafka_messages(&messages, parse);
    assert_eq!(parsed, ParsedMessages { values: vec![5, 7], failed: 1 });
    let nothing = deserialize_kafka_messages(&vec![], parse);
    assert_eq!(nothing, ParsedMessages { values: vec![], failed: 0 });
}

#[test]
fn lists_of_messages_can_be_parsed_one_by_one() {
    let a = vec![message(Some(&[5])), message(Some(&[]))];
    let b = vec![message(None), message(Some(&[])), message(Some(&[7]))];
    let both: Vec<KafkaMessage> = a.iter().chain(&b).cloned().collect();
    let (of_a, of_b) =
        (deserialize_kafka_messages(&a, parse), deserialize_kafka_messages(&b, parse));
    let of_both = deserialize_kafka_messages(&both, parse);
    assert_eq!(of_both.values, [of_a.values, of_b.values].concat());
    assert_eq!(of_both.failed, of_a.failed + of_b.failed);
    assert_eq!(of_both.failed, 2);
}

fn plain_core() -> TweetCoreData {
    TweetCoreData {
        created_at_secs: Some(900),
        nullcast: None,
        reply: None,
        share: None,
        conversation_id: Some(4),
    }
}

fn tweet(id: i64) -> Tweet {
    Tweet { id: Some(id), core_data: Some(plain_core()), media: None }
}

fn created(tweet: Tweet, user_id: Option<i64>) -> TweetEvent {
    TweetEvent {
        data: Some(TweetEventData::TweetCreateEvent(TweetCreated { tweet: Some(tweet), user_id })),
    }
}

fn deleted(tweet: Tweet) -> TweetEvent {
    TweetEvent { data: Some(TweetEventData::TweetDeleteEvent(Some(tweet))) }
}

fn video(duration_millis: Option<i32>) -> TweetMedia {
    TweetMedia { media_info: Some(TweetMediaInfo::VideoInfo(TweetVideoInfo { duration_millis })) }
}

#[test]
fn one_long_video_is_eligible() {
    let with = |media: Option<Vec<TweetMedia>>| Tweet { media, ..tweet(1) };
    assert!(is_eligible_video(&with(Some(vec![video(Some(1000))])), 1000));
    assert!(!is_eligible_video(&with(Some(vec![video(Some(999))])), 1000));
    assert!(!is_eligible_video(&with(Some(vec![video(None)])), 1000));
    assert!(!is_eligible_video(&with(Some(vec![])), 1000));
    assert!(!is_eligible_video(&with(Some(vec![video(Some(2000)), video(Some(2000))])), 1000));
    assert!(!is_eligible_video(&with(Some(vec![TweetMedia { media_info: None }])), 1000));
    let other = TweetMedia { media_info: Some(TweetMediaInfo::Other) };
    assert!(!is_eligible_video(&with(Some(vec![other])), 1000));
    assert!(!is_eligible_video(&with(None), 1000));
}

#[test]
fn batches_are_sorted_into_posts_and_deletions() {
    let mut reply = tweet(2);
    reply.core_data = Some(TweetCoreData {
        reply: Some(TweetReply { in_reply_to_status_id: Some(20), in_reply_to_user_id: Some(21) }),
        ..plain_core()
    });
    let mut share = tweet(3);
    share.core_data = Some(TweetCoreData {
        share: Some(TweetShare { source_status_id: Some(30), source_user_id: Some(31) }),
        ..plain_core()
    });
    share.media = Some(vec![video(Some(5000))]);
    let mut nullcast = tweet(4);
    nullcast.core_data = Some(TweetCoreData { nullcast: Some(true), ..plain_core() });
    let mut old = tweet(6);
    old.core_data = Some(TweetCoreData { created_at_secs: Some(499), ..plain_core() });
    let mut edge = tweet(7);
    edge.core_data = Some(TweetCoreData { created_at_secs: Some(500), ..plain_core() });
    let events = vec![
        created(tweet(1), Some(11)),
        created(reply, Some(12)),
        deleted(tweet(5)),
        created(share, Some(13)),
        created(nullcast, Some(14)),
        deleted(old),
        deleted(edge),
        TweetEvent { data: Some(TweetEventData::QuotedTweetDeleteEvent(Some(8))) },
        TweetEvent { data: Some(TweetEventData::Other) },
    ];
    assert!(events.iter().all(|event| is_complete_event(event, 1000, 500)));
    let (posts, deletions) = process_message_batch(&events, 1000, 500, 1000);
    assert_eq!(deletions, vec![5, 7, 8]);
    let plain = LightPost {
        post_id: 1,
        author_id: 11,
        created_at: 900,
        in_reply_to_post_id: None,
        in_reply_to_user_id: None,
        is_retweet: false,
        is_reply: false,
        source_post_id: None,
        source_user_id: None,
        has_video: false,
        conversation_id: Some(4),
    };
    assert_eq!(
        posts,
        vec![
            plain,
            LightPost {
                post_id: 2,
                author_id: 12,
                is_reply: true,
                in_reply_to_post_id: Some(20),
                in_reply_to_user_id: Some(21),
                ..plain
            },
            LightPost {
                post_id: 3,
                author_id: 13,
                is_retweet: true,
                source_post_id: Some(30),
                source_user_id: Some(31),
                has_video: true,
                ..plain
            },
        ]
    );
}

#[test]
fn incomplete_events_are_told() {
    assert!(!is_complete_event(&TweetEvent { data: None }, 1000, 500));
    assert!(!is_complete_event(&created(tweet(1), None), 1000, 500));
    let no_id = Tweet { id: None, ..tweet(1) };
    assert!(!is_complete_event(&created(no_id.clone(), Some(1)), 1000, 500));
    assert!(!is_complete_event(&deleted(no_id), 1000, 500));
    let no_core = Tweet { core_data: None, ..tweet(1) };
    assert!(!is_complete_event(&created(no_core, Some(1)), 1000, 500));
    let mut no_time = tweet(1);
    no_time.core_data = Some(TweetCoreData { created_at_secs: None, ..plain_core() });
    assert!(!is_complete_event(&created(no_time.clone(), Some(1)), 1000, 500));
    assert!(!is_complete_event(&deleted(no_time), 1000, 500));
    let quoted = TweetEvent { data: Some(TweetEventData::QuotedTweetDeleteEvent(None)) };
    assert!(!is_complete_event(&quoted, 1000, 500));
    let mut hidden = tweet(1);
    hidden.core_data =
        Some(TweetCoreData { created_at_secs: None, nullcast: Some(true), ..plain_core() });
    assert!(is_complete_event(&created(hidden, Some(1)), 1000, 500));
}

#[test]
fn posts_and_deletions_survive_the_exchange() {
    let mut reply = tweet(2);
    reply.core_data = Some(TweetCoreData {
        reply: Some(TweetReply { in_reply_to_status_id: Some(20), in_reply_to_user_id: None }),
        ..plain_core()
    });
    let events = vec![created(tweet(1), Some(11)), created(reply, Some(12)), deleted(tweet(5))];
    let (posts, deletions) = process_message_batch(&events, 1000, 500, 1000);
    let sent = events_to_send(&posts, &deletions, 1000);
    assert_eq!(sent.len(), 3);
    let (received, withdrawn) = deserialize_batch(&sent);
    assert_eq!(received, posts);
    assert_eq!(withdrawn, vec![TweetDeleteEvent { post_id: 5, deleted_at: 1000 }]);
}

#[test]
fn compact_posts_that_name_what_they_answer_are_replies() {
    let event = TweetCreateEvent {
        post_id: 1,
        author_id: 2,
        created_at: 3,
        in_reply_to_post_id: None,
        in_reply_to_user_id: Some(4),
        is_retweet: false,
        is_reply: false,
        source_post_id: None,
        source_user_id: None,
        has_video: true,
        conversation_id: None,
    };
    let wrap = |event: TweetCreateEvent| InNetworkEvent {
        event_variant: Some(EventVariant::TweetCreateEvent(event)),
    };
    let by_post = TweetCreateEvent {
        in_reply_to_post_id: Some(5),
        in_reply_to_user_id: None,
        ..event
    };
    let neither = TweetCreateEvent { in_reply_to_user_id: None, ..event };
    let (posts, deletions) = deserialize_batch(&vec![wrap(event), wrap(by_post), wrap(neither)]);
    assert!(deletions.is_empty());
    let flags: Vec<bool> = posts.iter().map(|post| post.is_reply).collect();
    assert_eq!(flags, vec![true, true, false]);
}

#[test]
fn deletions_of_a_batch_prevail() {
    let now = std::time::SystemTime::now()
        .duration_since(std::time::UNIX_EPOCH)
        .unwrap()
        .as_secs() as i64;
    let mut store = PostStore::new(
        1000,
        0,
        StoreLimits {
            delete_event_key: -1,
            max_original_posts_per_author: 5,
            max_reply_posts_per_author: 5,
            max_video_posts_per_author: 5,
            max_tiny_posts_per_user_scan: 5,
        },
    );
    let post = LightPost {
        post_id: 1,
        author_id: 7,
        created_at: now - 10,
        in_reply_to_post_id: None,
        in_reply_to_user_id: None,
        is_retweet: false,
        is_reply: false,
        source_post_id: None,
        source_user_id: None,
        has_video: false,
        conversation_id: None,
    };
    let other = LightPost { post_id: 2, ..post };
    let late = LightPost { post_id: 3, created_at: now, ..post };
    apply_batch_at(
        &mut store,
        vec![post, other, late],
        vec![TweetDeleteEvent { post_id: 1, deleted_at: now }],
        now as u64,
    );
    assert_eq!(store.stats().total_posts, 1);
    assert_eq!(store.stats().deleted_posts, 1);
}

#[test]
fn feeder_processes_full_batches() {
    assert_eq!(FEEDER_POLL_SIZE, 100);
    assert_eq!(POLL_RETRY_MS, 100);
    let mut listener = FeederListener::new(3);
    let failed = FeederEvent::Polled(None);
    assert_eq!(listener.process_tweet_events(failed.clone()), FeederAction::WaitAndPoll);
    let first = FeederEvent::Polled(Some(vec![message(Some(&[1])), message(Some(&[2]))]));
    assert_eq!(listener.process_tweet_events(first), FeederAction::Poll);
    assert_eq!(listener.process_tweet_events(failed), FeederAction::WaitAndPoll);
    let second = FeederEvent::Polled(Some(vec![message(Some(&[3])), message(Some(&[4]))]));
    assert_eq!(
        listener.process_tweet_events(second),
        FeederAction::Process {
            messages: vec![
                message(Some(&[1])),
                message(Some(&[2])),
                message(Some(&[3])),
                message(Some(&[4])),
            ],
            batch_num: 1,
        }
    );
    assert_eq!(
        listener.process_tweet_events(FeederEvent::Processed { succeeded: true }),
        FeederAction::Commit
    );
    assert_eq!(
        listener.process_tweet_events(FeederEvent::Committed { succeeded: true }),
        FeederAction::Poll
    );
    assert_eq!(
        listener.process_tweet_events(FeederEvent::Polled(Some(vec![message(None)]))),
        FeederAction::Poll
    );
}

#[test]
fn a_feeder_ends_on_a_batch_or_a_commit_that_fails() {
    let full = || FeederEvent::Polled(Some(vec![message(None)]));
    let mut listener = FeederListener::new(1);
    assert_eq!(
        listener.process_tweet_events(full()),
        FeederAction::Process { messages: vec![message(None)], batch_num: 1 }
    );
    assert_eq!(
        listener.process_tweet_events(FeederEvent::Processed { succeeded: false }),
        FeederAction::Stop
    );
    let mut listener = FeederListener::new(1);
    listener.process_tweet_events(full());
    assert_eq!(
        listener.process_tweet_events(FeederEvent::Processed { succeeded: true }),
        FeederAction::Commit
    );
    assert_eq!(
        listener.process_tweet_events(FeederEvent::Committed { succeeded: false }),
        FeederAction::Stop
    );
}

#[test]
fn a_feeder_loses_no_message() {
    let mut listener = FeederListener::new(2);
    let mut batches: Vec<Vec<KafkaMessage>> = Vec::new();
    for n in 0..5u8 {
        listener.process_tweet_events(FeederEvent::Polled(None));
        let polled = FeederEvent::Polled(Some(vec![message(Some(&[n]))]));
        if let FeederAction::Process { messages, batch_num } = listener.process_tweet_events(polled)
        {
            batches.push(messages);
            assert_eq!(batch_num, batches.len());
            listener.process_tweet_events(FeederEvent::Processed { succeeded: true });
            listener.process_tweet_events(FeederEvent::Committed { succeeded: true });
        }
    }
    let expected: Vec<Vec<KafkaMessage>> = vec![
        vec![message(Some(&[0])), message(Some(&[1]))],
        vec![message(Some(&[2])), message(Some(&[3]))],
    ];
    assert_eq!(batches, expected);
}

fn polled(messages: Vec<KafkaMessage>, lags: Option<Vec<i64>>) -> ServerEvent {
    ServerEvent::Polled { messages: Some(messages), lags }
}

#[test]
fn server_reports_when_it_has_caught_up() {
    assert_eq!(MAX_CONCURRENT_BATCHES, 3);
    let mut listener = ServerListener::new(2);
    assert!(listener.wants_lags());
    assert_eq!(
        listener.process_tweet_events_v2(ServerEvent::Polled { messages: None, lags: None }),
        ServerAction::WaitAndPoll
    );
    // Two partitions with batches of two: caught up below a lag of four.
    let two = || vec![message(None), message(None)];
    match listener.process_tweet_events_v2(polled(two(), Some(vec![3, 1]))) {
        ServerAction::Store(batch) => {
            assert_eq!(batch.messages.len(), 2);
            assert_eq!(batch.batch_count, 1);
            assert!(!batch.needs_permit);
            assert_eq!(batch.caught_up_with_lag, None);
        }
        other => panic!("unexpected {:?}", other),
    }
    assert_eq!(
        listener.process_tweet_events_v2(ServerEvent::Stored { succeeded: true }),
        ServerAction::Poll { caught_up_with_lag: None }
    );
    assert!(listener.wants_lags());
    match listener.process_tweet_events_v2(polled(two(), Some(vec![2, 1]))) {
        ServerAction::Store(batch) => {
            assert_eq!(batch.batch_count, 2);
            assert!(batch.needs_permit);
            assert_eq!(batch.caught_up_with_lag, Some(3));
        }
        other => panic!("unexpected {:?}", other),
    }
    // A batch that could not be taken in does not end the worker.
    assert_eq!(
        listener.process_tweet_events_v2(ServerEvent::Stored { succeeded: false }),
        ServerAction::Poll { caught_up_with_lag: None }
    );
    assert!(!listener.wants_lags());
    assert_eq!(
        listener.process_tweet_events_v2(polled(vec![message(None)], None)),
        ServerAction::Poll { caught_up_with_lag: None }
    );
}

#[test]
fn a_worker_that_catches_up_without_a_full_batch_reports_it_once() {
    let mut listener = ServerListener::new(3);
    let poll = |listener: &mut ServerListener, n: u8| {
        listener.process_tweet_events_v2(polled(vec![message(Some(&[n]))], Some(vec![1])))
    };
    assert_eq!(poll(&mut listener, 1), ServerAction::Poll { caught_up_with_lag: Some(1) });
    assert!(!listener.wants_lags());
    assert_eq!(poll(&mut listener, 2), ServerAction::Poll { caught_up_with_lag: None });
    // The batch that was begun before needs a permit, and is not reported again.
    match poll(&mut listener, 3) {
        ServerAction::Store(batch) => {
            let expected: Vec<KafkaMessage> =
                vec![message(Some(&[1])), message(Some(&[2])), message(Some(&[3]))];
            assert_eq!(batch.messages, expected);
            assert!(batch.needs_permit);
            assert_eq!(batch.caught_up_with_lag, None);
        }
        other => panic!("unexpected {:?}", other),
    }
    // A worker whose topic is empty has caught up at once.
    let mut idle = ServerListener::new(3);
    assert_eq!(
        idle.process_tweet_events_v2(polled(vec![], Some(vec![0, 0]))),
        ServerAction::Poll { caught_up_with_lag: Some(0) }
    );
}

#[test]
fn partitions_are_dealt_out_once_and_in_order() {
    assert_eq!(partition_ids(4), vec![0, 1, 2, 3]);
    assert!(partition_ids(0).is_empty());
    let ten = partition_ids(10);
    assert_eq!(
        assign_partitions(&ten, 4),
        vec![vec![0, 1, 2], vec![3, 4, 5], vec![6, 7, 8], vec![9]]
    );
    // Nine to six: two each, and nothing for the last.
    let nine = partition_ids(9);
    let shares = assign_partitions(&nine, 6);
    assert_eq!(shares.len(), 5);
    assert_eq!(shares.concat(), nine);
    assert_eq!(assign_partitions(&partition_ids(2), 5), vec![vec![0], vec![1]]);
    assert!(assign_partitions(&vec![], 3).is_empty());
}

fn args(is_serving: bool) -> KafkaArgs {
    KafkaArgs {
        is_serving,
        kafka_group_id: "group".to_string(),
        in_network_events_consumer_dest: "dest".to_string(),
        security_protocol: "ssl".to_string(),
        sasl_mechanism: "m".to_string(),
        sasl_username: "u".to_string(),
        sasl_password: Some("argument".to_string()),
        producer_sasl_mechanism: "pm".to_string(),
        producer_sasl_username: "pu".to_string(),
        producer_sasl_password: None,
        auto_offset_reset: "earliest".to_string(),
        fetch_timeout_ms: 77,
        skip_to_latest: true,
    }
}

#[test]
fn without_a_password_nothing_is_started() {
    let mut bare = args(true);
    bare.sasl_password = None;
    assert_eq!(start_kafka(&bare, &None, &None, ""), Err(StartError::MissingSaslPassword));
    assert!(start_kafka(&bare, &Some("env".to_string()), &None, "").is_ok());
}

#[test]
fn servers_join_a_group_of_their_own() {
    let plan = |_: u32| match start_kafka(&args(true), &None, &Some("pp".to_string()), "") {
        Ok(KafkaPlan::Serve(config)) => config,
        other => panic!("unexpected {:?}", other),
    };
    let config = plan(0);
    assert_eq!(config.base_config.dest, "dest");
    assert!(config.base_config.uses_service_discovery);
    let ssl = config.base_config.ssl.unwrap();
    assert_eq!(ssl.security_protocol, "ssl");
    assert_eq!(ssl.sasl_mechanism, Some("pm".to_string()));
    assert_eq!(ssl.sasl_username, Some("pu".to_string()));
    assert_eq!(ssl.sasl_password, Some("pp".to_string()));
    assert_eq!(config.max_partition_fetch_bytes, Some(SERVER_FETCH_BYTES));
    assert_eq!(SERVER_FETCH_BYTES, 104_857_600);
    assert_eq!(config.fetch_timeout_ms, 77);
    assert_eq!(config.enable_auto_commit, None);
    assert!(config.skip_to_latest);
    // The suffix is the hyphenated text of a random UUID, and no two are equal.
    let id = config.group_id.strip_prefix("group-").unwrap();
    assert_eq!(id.len(), 36);
    for (i, c) in id.chars().enumerate() {
        if i == 8 || i == 13 || i == 18 || i == 23 {
            assert_eq!(c, '-');
        } else {
            assert!(c.is_ascii_digit() || ('a'..='f').contains(&c));
        }
    }
    assert_eq!(id.as_bytes()[14], b'4');
    assert!(b"89ab".contains(&id.as_bytes()[19]));
    assert_ne!(plan(1).group_id, config.group_id);
    assert_eq!(serving_consumer(&args(true), &None, "x").group_id, "group-x");
}

#[test]
fn feeders_join_the_group_of_the_user() {
    let plan = start_kafka(&args(false), &Some("env".to_string()), &None, "me");
    let (consumer, producer) = match plan {
        Ok(KafkaPlan::Feed(consumer, producer)) => (consumer, producer),
        other => panic!("unexpected {:?}", other),
    };
    assert_eq!(consumer, feeding_consumer(&args(false), &"env".to_string(), "me"));
    assert_eq!(producer, feeding_producer(&args(false), &None));
    assert_eq!(consumer.group_id, "group-me");
    assert_eq!(consumer.enable_auto_commit, Some(false));
    assert_eq!(consumer.max_partition_fetch_bytes, Some(FEEDER_FETCH_BYTES));
    assert_eq!(FEEDER_FETCH_BYTES, 10_485_760);
    assert_eq!(consumer.partitions, None);
    assert_eq!(
        consumer.base_config.ssl.unwrap().sasl_password,
        Some("env".to_string())
    );
    assert_eq!(producer.base_config.ssl.unwrap().sasl_username, Some("pu".to_string()));
}

#[test]
fn workers_get_their_share() {
    let base = serving_consumer(&args(true), &None, "x");
    let configs = spawn_processing_threads(&base, 5, 2);
    assert_eq!(configs.len(), 2);
    assert_eq!(configs[0].partitions, Some(vec![0, 1, 2]));
    assert_eq!(configs[1].partitions, Some(vec![3, 4]));
    assert_eq!(configs[0].group_id, base.group_id);
    assert_eq!(configs[1].base_config, base.base_config);
    assert!(spawn_processing_threads(&base, 0, 2).is_empty());
}
