//! How the connections to the message broker are set up.

use uuid::Uuid;
use vstd::prelude::*;

use crate::seqs::reversed;
use crate::status::joined;
use crate::thunder::partitions::{
    assign_partitions, ceil_div, partition_ids, partition_list, share_of, share_size,
};

verus! {

/// The topic of the events about tweets.
pub const TWEET_EVENT_TOPIC: &'static str = "";

/// Where the events about tweets come from.
pub const TWEET_EVENT_DEST: &'static str = "";

/// Where the compact events go.
pub const IN_NETWORK_EVENTS_DEST: &'static str = "";

/// The topic of the compact events.
pub const IN_NETWORK_EVENTS_TOPIC: &'static str = "";

/// How much the server fetches from a partition at once: 100 MiB.
pub const SERVER_FETCH_BYTES: u64 = 1024 * 1024 * 100;

/// How much the feeder fetches from a partition at once: 10 MiB.
pub const FEEDER_FETCH_BYTES: u64 = 1024 * 1024 * 10;

/// What the command line says about the message broker.
#[derive(Clone, Debug, PartialEq, Eq)]
pub struct KafkaArgs {
    pub is_serving: bool,
    pub kafka_group_id: String,
    pub in_network_events_consumer_dest: String,
    pub security_protocol: String,
    pub sasl_mechanism: String,
    pub sasl_username: String,
    pub sasl_password: Option<String>,
    pub producer_sasl_mechanism: String,
    pub producer_sasl_username: String,
    pub producer_sasl_password: Option<String>,
    pub auto_offset_reset: String,
    pub fetch_timeout_ms: u64,
    pub skip_to_latest: bool,
}

/// How a connection proves who it is.
#[derive(Clone, Debug, PartialEq, Eq)]
pub struct SslConfig {
    pub security_protocol: String,
    pub sasl_mechanism: Option<String>,
    pub sasl_username: Option<String>,
    pub sasl_password: Option<String>,
}

/// What consumers and producers have in common.
#[derive(Clone, Debug, PartialEq, Eq)]
pub struct KafkaConfig {
    pub dest: String,
    pub topic: String,
    /// Whether the destination is looked up with the default service discovery.
    pub uses_service_discovery: bool,
    pub ssl: Option<SslConfig>,
}

/// How a topic is read.
#[derive(Clone, Debug, PartialEq, Eq)]
pub struct KafkaConsumerConfig {
    pub base_config: KafkaConfig,
    pub group_id: String,
    pub auto_offset_reset: String,
    /// Whether offsets are committed without being told; `None` for the default.
    pub enable_auto_commit: Option<bool>,
    pub fetch_timeout_ms: u64,
    pub max_partition_fetch_bytes: Option<u64>,
    /// The partitions to read; `None` for the default.
    pub partitions: Option<Vec<i32>>,
    pub skip_to_latest: bool,
}

/// How a topic is written.
#[derive(Clone, Debug, PartialEq, Eq)]
pub struct KafkaProducerConfig {
    pub base_config: KafkaConfig,
}

/// What a process does with the message broker.
#[derive(Clone, Debug, PartialEq, Eq)]
pub enum KafkaPlan {
    /// Read compact events into the store.
    Serve(KafkaConsumerConfig),
    /// Read events about tweets, and write compact events.
    Feed(KafkaConsumerConfig, KafkaProducerConfig),
}

/// Why no connection can be set up.
#[derive(Clone, Copy, Debug, PartialEq, Eq, Structural)]
pub enum StartError {
    MissingSaslPassword,
}

/// A lower-case hexadecimal digit.
pub open spec fn is_hex_digit(c: char) -> bool {
    ('0' <= c && c <= '9') || ('a' <= c && c <= 'f')
}

/// The hyphenated text of a random UUID: groups of 8, 4, 4, 4 and 12 digits, the
/// version digit 4, the variant digit one of 8, 9, a and b.
pub open spec fn is_random_uuid_text(text: Seq<char>) -> bool {
    &&& text.len() == 36
    &&& forall|i: int|
        0 <= i < 36 ==> if i == 8 || i == 13 || i == 18 || i == 23 {
            #[trigger] text[i] == '-'
        } else {
            is_hex_digit(text[i])
        }
    &&& text[14] == '4'
    &&& text[19] == '8' || text[19] == '9' || text[19] == 'a' || text[19] == 'b'
}

/// `Uuid::new_v4` as text: the hyphenated form of a version 4 UUID in lower
/// case. Which one it is, is left to chance.
#[verifier::external_body]
fn new_unique_id() -> (id: String)
    ensures
        is_random_uuid_text(id@),
{
    Uuid::new_v4().to_string()
}

/// The group id `group`, a hyphen, `suffix`.
fn group_id(group: &str, suffix: &str) -> (id: String)
    ensures
        id@ == group@ + "-"@ + suffix@,
{
    let mut id = joined(group, "-");
    id.append(suffix);
    id
}

/// The password that the environment gives, or else the command line.
pub open spec fn chosen_password(environment: Option<String>, argument: Option<String>) -> Option<
    String,
> {
    if environment is Some {
        environment
    } else {
        argument
    }
}

fn choose_password(environment: &Option<String>, argument: &Option<String>) -> (password: Option<
    String,
>)
    ensures
        password == chosen_password(*environment, *argument),
{
    match environment {
        Some(password) => Some(password.clone()),
        None => match argument {
            Some(password) => Some(password.clone()),
            None => None,
        },
    }
}

fn clone_password(password: &Option<String>) -> (copy: Option<String>)
    ensures
        copy == *password,
{
    match password {
        Some(text) => Some(text.clone()),
        None => None,
    }
}

/// `ssl` proves who it is with the credentials for compact events.
pub open spec fn has_producer_credentials(
    ssl: Option<SslConfig>,
    args: KafkaArgs,
    producer_password: Option<String>,
) -> bool {
    ssl == Some(
        SslConfig {
            security_protocol: args.security_protocol,
            sasl_mechanism: Some(args.producer_sasl_mechanism),
            sasl_username: Some(args.producer_sasl_username),
            sasl_password: producer_password,
        },
    )
}

fn producer_credentials(args: &KafkaArgs, producer_password: &Option<String>) -> (ssl: Option<
    SslConfig,
>)
    ensures
        has_producer_credentials(ssl, *args, *producer_password),
{
    Some(
        SslConfig {
            security_protocol: args.security_protocol.clone(),
            sasl_mechanism: Some(args.producer_sasl_mechanism.clone()),
            sasl_username: Some(args.producer_sasl_username.clone()),
            sasl_password: clone_password(producer_password),
        },
    )
}

/// How a server reads compact events: in a group of its own, which `unique_id`
/// sets apart, so that every server sees every event.
pub fn serving_consumer(
    args: &KafkaArgs,
    producer_password: &Option<String>,
    unique_id: &str,
) -> (config: KafkaConsumerConfig)
    ensures
        config.base_config.dest == args.in_network_events_consumer_dest,
        config.base_config.topic@ == IN_NETWORK_EVENTS_TOPIC@,
        config.base_config.uses_service_discovery,
        has_producer_credentials(config.base_config.ssl, *args, *producer_password),
        config.group_id@ == args.kafka_group_id@ + "-"@ + unique_id@,
        config.auto_offset_reset == args.auto_offset_reset,
        config.enable_auto_commit is None,
        config.fetch_timeout_ms == args.fetch_timeout_ms,
        config.max_partition_fetch_bytes == Some(SERVER_FETCH_BYTES),
        config.partitions is None,
        config.skip_to_latest == args.skip_to_latest,
{
    KafkaConsumerConfig {
        base_config: KafkaConfig {
            dest: args.in_network_events_consumer_dest.clone(),
            topic: String::from_str(IN_NETWORK_EVENTS_TOPIC),
            uses_service_discovery: true,
            ssl: producer_credentials(args, producer_password),
        },
        group_id: group_id(args.kafka_group_id.as_str(), unique_id),
        auto_offset_reset: args.auto_offset_reset.clone(),
        enable_auto_commit: None,
        fetch_timeout_ms: args.fetch_timeout_ms,
        max_partition_fetch_bytes: Some(SERVER_FETCH_BYTES),
        partitions: None,
        skip_to_latest: args.skip_to_latest,
    }
}

/// How the feeder reads events about tweets: in the group of `user`, committing
/// offsets by hand.
pub fn feeding_consumer(args: &KafkaArgs, sasl_password: &String, user: &str) -> (config:
    KafkaConsumerConfig)
    ensures
        config.base_config.dest@ == TWEET_EVENT_DEST@,
        config.base_config.topic@ == TWEET_EVENT_TOPIC@,
        config.base_config.uses_service_discovery,
        config.base_config.ssl == Some(
            (SslConfig {
                security_protocol: args.security_protocol,
                sasl_mechanism: Some(args.sasl_mechanism),
                sasl_username: Some(args.sasl_username),
                sasl_password: Some(*sasl_password),
            }),
        ),
        config.group_id@ == args.kafka_group_id@ + "-"@ + user@,
        config.auto_offset_reset == args.auto_offset_reset,
        config.enable_auto_commit == Some(false),
        config.fetch_timeout_ms == args.fetch_timeout_ms,
        config.max_partition_fetch_bytes == Some(FEEDER_FETCH_BYTES),
        config.partitions is None,
        config.skip_to_latest == args.skip_to_latest,
{
    KafkaConsumerConfig {
        base_config: KafkaConfig {
            dest: String::from_str(TWEET_EVENT_DEST),
            topic: String::from_str(TWEET_EVENT_TOPIC),
            uses_service_discovery: true,
            ssl: Some(
                SslConfig {
                    security_protocol: args.security_protocol.clone(),
                    sasl_mechanism: Some(args.sasl_mechanism.clone()),
                    sasl_username: Some(args.sasl_username.clone()),
                    sasl_password: Some(sasl_password.clone()),
                },
            ),
        },
        group_id: group_id(args.kafka_group_id.as_str(), user),
        auto_offset_reset: args.auto_offset_reset.clone(),
        enable_auto_commit: Some(false),
        fetch_timeout_ms: args.fetch_timeout_ms,
        max_partition_fetch_bytes: Some(FEEDER_FETCH_BYTES),
        partitions: None,
        skip_to_latest: args.skip_to_latest,
    }
}

/// How the feeder writes compact events.
pub fn feeding_producer(args: &KafkaArgs, producer_password: &Option<String>) -> (config:
    KafkaProducerConfig)
    ensures
        config.base_config.dest@ == IN_NETWORK_EVENTS_DEST@,
        config.base_config.topic@ == IN_NETWORK_EVENTS_TOPIC@,
        config.base_config.uses_service_discovery,
        has_producer_credentials(config.base_config.ssl, *args, *producer_password),
{
    KafkaProducerConfig {
        base_config: KafkaConfig {
            dest: String::from_str(IN_NETWORK_EVENTS_DEST),
            topic: String::from_str(IN_NETWORK_EVENTS_TOPIC),
            uses_service_discovery: true,
            ssl: producer_credentials(args, producer_password),
        },
    }
}

/// What a process does with the message broker, given the passwords that the
/// environment holds. Without a password for the events about tweets it does
/// nothing. A server joins a group of its own; the feeder joins that of `user`.
pub fn start_kafka(
    args: &KafkaArgs,
    environment_password: &Option<String>,
    environment_producer_password: &Option<String>,
    user: &str,
) -> (plan: Result<KafkaPlan, StartError>)
    ensures
        plan == Err::<KafkaPlan, StartError>(StartError::MissingSaslPassword) <==> chosen_password(
            *environment_password,
            args.sasl_password,
        ) is None,
        plan matches Ok(KafkaPlan::Serve(consumer)) ==> {
            &&& args.is_serving
            &&& consumer.base_config.dest == args.in_network_events_consumer_dest
            &&& consumer.base_config.topic@ == IN_NETWORK_EVENTS_TOPIC@
            &&& consumer.base_config.uses_service_discovery
            &&& has_producer_credentials(
                consumer.base_config.ssl,
                *args,
                chosen_password(*environment_producer_password, args.producer_sasl_password),
            )
            &&& exists|id: Seq<char>| #[trigger]
                is_random_uuid_text(id) && consumer.group_id@ == args.kafka_group_id@ + "-"@ + id
            &&& consumer.auto_offset_reset == args.auto_offset_reset
            &&& consumer.enable_auto_commit is None
            &&& consumer.fetch_timeout_ms == args.fetch_timeout_ms
            &&& consumer.max_partition_fetch_bytes == Some(SERVER_FETCH_BYTES)
            &&& consumer.partitions is None
            &&& consumer.skip_to_latest == args.skip_to_latest
        },
        plan matches Ok(KafkaPlan::Feed(consumer, producer)) ==> {
            &&& !args.is_serving
            &&& consumer.base_config.dest@ == TWEET_EVENT_DEST@
            &&& consumer.base_config.topic@ == TWEET_EVENT_TOPIC@
            &&& consumer.base_config.uses_service_discovery
            &&& consumer.base_config.ssl == Some(
                (SslConfig {
                    security_protocol: args.security_protocol,
                    sasl_mechanism: Some(args.sasl_mechanism),
                    sasl_username: Some(args.sasl_username),
                    sasl_password: chosen_password(*environment_password, args.sasl_password),
                }),
            )
            &&& consumer.group_id@ == args.kafka_group_id@ + "-"@ + user@
            &&& consumer.auto_offset_reset == args.auto_offset_reset
            &&& consumer.enable_auto_commit == Some(false)
            &&& consumer.fetch_timeout_ms == args.fetch_timeout_ms
            &&& consumer.max_partition_fetch_bytes == Some(FEEDER_FETCH_BYTES)
            &&& consumer.partitions is None
            &&& consumer.skip_to_latest == args.skip_to_latest
            &&& producer.base_config.dest@ == IN_NETWORK_EVENTS_DEST@
            &&& producer.base_config.topic@ == IN_NETWORK_EVENTS_TOPIC@
            &&& producer.base_config.uses_service_discovery
            &&& has_producer_credentials(
                producer.base_config.ssl,
                *args,
                chosen_password(*environment_producer_password, args.producer_sasl_password),
            )
        },
{
    let sasl_password = match choose_password(environment_password, &args.sasl_password) {
        Some(password) => password,
        None => return Err(StartError::MissingSaslPassword),
    };
    let producer_password = choose_password(
        environment_producer_password,
        &args.producer_sasl_password,
    );
    if args.is_serving {
        let unique_id = new_unique_id();
        Ok(KafkaPlan::Serve(serving_consumer(args, &producer_password, unique_id.as_str())))
    } else {
        Ok(
            KafkaPlan::Feed(
                feeding_consumer(args, &sasl_password, user),
                feeding_producer(args, &producer_password),
            ),
        )
    }
}

fn copy_ssl(ssl: &Option<SslConfig>) -> (copy: Option<SslConfig>)
    ensures
        copy == *ssl,
{
    match ssl {
        Some(ssl) => Some(
            SslConfig {
                security_protocol: ssl.security_protocol.clone(),
                sasl_mechanism: clone_password(&ssl.sasl_mechanism),
                sasl_username: clone_password(&ssl.sasl_username),
                sasl_password: clone_password(&ssl.sasl_password),
            },
        ),
        None => None,
    }
}

/// `base`, for the partitions of one worker.
pub open spec fn is_worker_config(
    config: KafkaConsumerConfig,
    base: KafkaConsumerConfig,
    partitions: Seq<i32>,
) -> bool {
    &&& config == KafkaConsumerConfig { partitions: config.partitions, ..base }
    &&& config.partitions is Some
    &&& config.partitions->0@ == partitions
}

fn worker_consumer(base: &KafkaConsumerConfig, partitions: Vec<i32>) -> (config:
    KafkaConsumerConfig)
    ensures
        is_worker_config(config, *base, partitions@),
{
    KafkaConsumerConfig {
        base_config: KafkaConfig {
            dest: base.base_config.dest.clone(),
            topic: base.base_config.topic.clone(),
            uses_service_discovery: base.base_config.uses_service_discovery,
            ssl: copy_ssl(&base.base_config.ssl),
        },
        group_id: base.group_id.clone(),
        auto_offset_reset: base.auto_offset_reset.clone(),
        enable_auto_commit: base.enable_auto_commit,
        fetch_timeout_ms: base.fetch_timeout_ms,
        max_partition_fetch_bytes: base.max_partition_fetch_bytes,
        partitions: Some(partitions),
        skip_to_latest: base.skip_to_latest,
    }
}

/// How each worker reads its share of the partitions of a topic that has
/// `num_partitions` of them. Workers for whom nothing is left are not started.
pub fn spawn_processing_threads(
    base: &KafkaConsumerConfig,
    num_partitions: usize,
    num_threads: usize,
) -> (configs: Vec<KafkaConsumerConfig>)
    requires
        num_threads > 0,
    ensures
        configs@.len() <= num_threads,
        partition_list(num_partitions).len() == 0 ==> configs@.len() == 0,
        partition_list(num_partitions).len() > 0 ==> configs@.len() == ceil_div(
            partition_list(num_partitions).len(),
            share_size(partition_list(num_partitions).len(), num_threads as nat),
        ),
        forall|worker: int|
            0 <= worker < configs@.len() ==> is_worker_config(
                #[trigger] configs@[worker],
                *base,
                share_of(
                    partition_list(num_partitions),
                    share_size(partition_list(num_partitions).len(), num_threads as nat) as int,
                    worker,
                ),
            ),
{
    let ids = partition_ids(num_partitions);
    let shares = assign_partitions(&ids, num_threads);
    let ghost all = shares@;
    let mut configs: Vec<KafkaConsumerConfig> = Vec::with_capacity(shares.len());
    let mut upcoming = reversed(shares);
    while upcoming.len() > 0
        invariant
            configs@.len() + upcoming@.len() == all.len(),
            forall|n: int|
                0 <= n < upcoming@.len() ==> #[trigger] upcoming@[n] == all[all.len() - 1 - n],
            forall|worker: int|
                0 <= worker < configs@.len() ==> is_worker_config(
                    #[trigger] configs@[worker],
                    *base,
                    all[worker]@,
                ),
        decreases upcoming@.len(),
    {
        let ghost before = upcoming@;
        if let Some(share) = upcoming.pop() {
            assert(share == all[all.len() - before.len()]);
            configs.push(worker_consumer(base, share));
        }
    }
    configs
}

} // verus!
