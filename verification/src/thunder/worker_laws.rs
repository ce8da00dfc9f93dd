//! How the workers that read topics are set up, and what each of their steps is.

use vstd::prelude::*;

use crate::thunder::launch::{
    chosen_password, has_producer_credentials, is_worker_config, KafkaArgs, KafkaConsumerConfig,
    SslConfig, FEEDER_FETCH_BYTES, SERVER_FETCH_BYTES,
};
use crate::thunder::listener::{
    caught_up_lag, elements, feeder_expects, feeder_next, feeder_start, is_caught_up, lag_number,
    next_number, server_expects, server_next, server_start, total_lag, FeederAction, FeederEvent,
    FeederInput, FeederPhase, FeederState, FeederStep, ServerAction, ServerEvent, ServerInput,
    ServerPhase, ServerState, ServerStep, StoreBatch, FEEDER_POLL_SIZE, MAX_CONCURRENT_BATCHES,
    POLL_RETRY_MS,
};
use crate::thunder::partitions::{ceil_div, partition_list, share_of, share_size};
use crate::thunder::schema::KafkaMessage;

verus! {

// Credentials.

/// A password of the environment prevails over one of the command line.
pub proof fn law_the_environment_prevails(environment: Option<String>, argument: Option<String>)
    ensures
        environment is Some ==> chosen_password(environment, argument) == environment,
        environment is None ==> chosen_password(environment, argument) == argument,
{
}

/// A connection for compact events proves who it is with the producer's mechanism, name
/// and password.
pub proof fn law_compact_events_use_the_producers_credentials(
    ssl: Option<SslConfig>,
    args: KafkaArgs,
    password: Option<String>,
)
    requires
        has_producer_credentials(ssl, args, password),
    ensures
        ssl matches Some(config) && config.security_protocol == args.security_protocol
            && config.sasl_mechanism == Some(args.producer_sasl_mechanism) && config.sasl_username
            == Some(args.producer_sasl_username) && config.sasl_password == password,
{
}

/// A worker reads as all of them do, but for its own partitions.
pub proof fn law_workers_differ_in_their_partitions_only(
    config: KafkaConsumerConfig,
    base: KafkaConsumerConfig,
    partitions: Seq<i32>,
)
    requires
        is_worker_config(config, base, partitions),
    ensures
        config.base_config == base.base_config,
        config.group_id == base.group_id,
        config.auto_offset_reset == base.auto_offset_reset,
        config.enable_auto_commit == base.enable_auto_commit,
        config.fetch_timeout_ms == base.fetch_timeout_ms,
        config.max_partition_fetch_bytes == base.max_partition_fetch_bytes,
        config.skip_to_latest == base.skip_to_latest,
        config.partitions matches Some(own) && own@ == partitions,
{
}

/// The sizes and the pause that the workers go by.
pub proof fn law_fixed_sizes()
    ensures
        SERVER_FETCH_BYTES == 104_857_600,
        FEEDER_FETCH_BYTES == 10_485_760,
        POLL_RETRY_MS == 100,
        FEEDER_POLL_SIZE == 100,
        MAX_CONCURRENT_BATCHES == 3,
{
}

// Partitions.

/// The partitions of a topic are numbered from 0.
pub proof fn law_partitions_are_numbered(num_partitions: usize, i: int)
    requires
        num_partitions <= i32::MAX,
    ensures
        partition_list(num_partitions).len() == num_partitions,
        0 <= i < num_partitions ==> partition_list(num_partitions)[i] == i,
{
}

/// The shares of the workers: all have the least size with which the workers suffice, but
/// for the last, which has what is left; each follows on the one before it.
pub proof fn law_shares_are_equal_but_for_the_last(
    partitions: Seq<i32>,
    num_threads: nat,
    worker: int,
    i: int,
)
    requires
        num_threads > 0,
        partitions.len() > 0,
        0 <= worker < ceil_div(partitions.len(), share_size(partitions.len(), num_threads)),
    ensures
        ({
            let total = partitions.len();
            let share = share_size(total, num_threads) as int;
            let workers = ceil_div(total, share as nat) as int;
            let own = share_of(partitions, share, worker);
            // The least size with which the workers suffice.
            &&& share > 0
            &&& num_threads * share >= total
            &&& num_threads * (share - 1) < total
            // The least number of workers with that size.
            &&& 0 < workers <= num_threads
            &&& workers * share >= total
            &&& (workers - 1) * share < total
            &&& worker < workers - 1 ==> own.len() == share
            &&& worker == workers - 1 ==> own.len() == total - (workers - 1) * share
            &&& 0 <= i < own.len() ==> own[i] == partitions[worker * share + i]
        }),
{
    let total = partitions.len();
    let share = share_size(total, num_threads);
    lemma_ceil_div(total, num_threads);
    assert(share > 0) by (nonlinear_arith)
        requires
            num_threads * share >= total,
            total > 0,
            share >= 0,
            num_threads > 0,
    ;
    lemma_ceil_div(total, share);
    let workers = ceil_div(total, share) as int;
    assert(share * workers == workers * share) by (nonlinear_arith);
    assert(share * (workers - 1) == (workers - 1) * share) by (nonlinear_arith);
    assert(workers > 0) by (nonlinear_arith)
        requires
            workers * share >= total,
            total > 0,
            share > 0,
    ;
    assert(workers <= num_threads) by (nonlinear_arith)
        requires
            (workers - 1) * share < total,
            num_threads * share >= total,
            share > 0,
    ;
    assert(0 <= worker * share && (worker + 1) * share == worker * share + share) by (
    nonlinear_arith)
        requires
            worker >= 0,
            share > 0,
    ;
    if worker < workers - 1 {
        assert((worker + 1) * share <= (workers - 1) * share) by (nonlinear_arith)
            requires
                worker + 1 <= workers - 1,
                share > 0,
        ;
    } else {
        assert(worker == workers - 1);
    }
}

proof fn lemma_ceil_div(a: nat, b: nat)
    requires
        b > 0,
        a > 0,
    ensures
        b * ceil_div(a, b) >= a,
        b * (ceil_div(a, b) - 1) < a,
{
    let q = a / b;
    let r = a % b;
    let c = ceil_div(a, b);
    assert(a == b * q + r && r < b) by (nonlinear_arith)
        requires
            b > 0,
            q == a / b,
            r == a % b,
    ;
    assert(b * c >= a && b * (c - 1) < a) by (nonlinear_arith)
        requires
            a == b * q + r,
            0 <= r < b,
            b > 0,
            c == q + (if r == 0 {
                0nat
            } else {
                1nat
            }),
    ;
}

// Steps of the feeder.

/// Batches are numbered one after the other, as far as numbers go.
pub proof fn law_batches_are_numbered(count: usize)
    ensures
        count < usize::MAX ==> next_number(count) == count + 1,
        count == usize::MAX ==> next_number(count) == count,
{
}

/// The steps of a worker of the feeder. It starts with nothing read. Messages of a poll are
/// put behind those that were read before. Once there are enough for a batch, all of them
/// are processed under the next number and none is held back; else the worker polls on. A
/// batch that was processed is committed, and then the worker polls on. A poll that failed
/// is made again after a pause; what else fails ends the worker.
pub proof fn law_steps_of_the_feeder(
    state: FeederState,
    messages: Seq<KafkaMessage>,
    batch_size: usize,
)
    ensures
        feeder_start().phase is Polling,
        feeder_start().buffered.len() == 0,
        feeder_start().batches == 0,
        ({
            let polled = feeder_next(state, FeederInput::Polled(Some(messages)), batch_size);
            let all = state.buffered + messages;
            &&& all.len() >= batch_size ==> {
                &&& polled.1 == (FeederStep::Process {
                    messages: all,
                    batch_num: next_number(state.batches),
                })
                &&& polled.0.phase is Processing
                &&& polled.0.buffered.len() == 0
                &&& polled.0.batches == next_number(state.batches)
            }
            &&& all.len() < batch_size ==> {
                &&& polled.1 is Poll
                &&& polled.0.phase == state.phase
                &&& polled.0.buffered == all
                &&& polled.0.batches == state.batches
            }
        }),
        feeder_next(state, FeederInput::Polled(None), batch_size) == (
            state,
            FeederStep::WaitAndPoll,
        ),
        ({
            let done = feeder_next(state, FeederInput::Processed { succeeded: true }, batch_size);
            &&& done.1 is Commit
            &&& done.0.phase is Committing
            &&& done.0.buffered == state.buffered
            &&& done.0.batches == state.batches
        }),
        ({
            let done = feeder_next(state, FeederInput::Committed { succeeded: true }, batch_size);
            &&& done.1 is Poll
            &&& done.0.phase is Polling
            &&& done.0.buffered == state.buffered
            &&& done.0.batches == state.batches
        }),
        feeder_next(state, FeederInput::Processed { succeeded: false }, batch_size).1 is Stop,
        feeder_next(
            state,
            FeederInput::Processed { succeeded: false },
            batch_size,
        ).0.phase is Stopped,
        feeder_next(state, FeederInput::Committed { succeeded: false }, batch_size).1 is Stop,
        feeder_next(
            state,
            FeederInput::Committed { succeeded: false },
            batch_size,
        ).0.phase is Stopped,
{
}

/// What a worker waits for is what it can meet; a worker that has stopped meets nothing.
pub proof fn law_workers_meet_what_they_wait_for(
    input: FeederInput,
    server_input: ServerInput,
)
    ensures
        feeder_expects(FeederPhase::Polling, input) <==> input is Polled,
        feeder_expects(FeederPhase::Processing, input) <==> input is Processed,
        feeder_expects(FeederPhase::Committing, input) <==> input is Committed,
        !feeder_expects(FeederPhase::Stopped, input),
        server_expects(ServerPhase::Polling, server_input) <==> server_input is Polled,
        server_expects(ServerPhase::Storing, server_input) <==> server_input is Stored,
{
}

/// What workers are told and what they answer, by the messages.
pub proof fn law_events_and_actions_are_what_they_say(
    messages: Vec<KafkaMessage>,
    number: usize,
    lags: Vec<i64>,
    flag: bool,
    lag: i128,
)
    ensures
        FeederEvent::Polled(Some(messages))@ == FeederInput::Polled(Some(messages@)),
        FeederEvent::Polled(None)@ == FeederInput::Polled(None),
        (FeederEvent::Processed { succeeded: flag })@ == (FeederInput::Processed {
            succeeded: flag,
        }),
        (FeederEvent::Committed { succeeded: flag })@ == (FeederInput::Committed {
            succeeded: flag,
        }),
        FeederAction::Poll@ is Poll,
        FeederAction::WaitAndPoll@ is WaitAndPoll,
        FeederAction::Commit@ is Commit,
        FeederAction::Stop@ is Stop,
        (FeederAction::Process { messages, batch_num: number })@ == (FeederStep::Process {
            messages: messages@,
            batch_num: number,
        }),
        elements(Some(messages)) == Some(messages@),
        elements(None::<Vec<KafkaMessage>>) is None,
        lag_number(Some(lag)) == Some(lag as int),
        lag_number(None) is None,
        (ServerEvent::Polled { messages: Some(messages), lags: Some(lags) })@ == (
        ServerInput::Polled { messages: Some(messages@), lags: Some(lags@) }),
        (ServerEvent::Stored { succeeded: flag })@ == (ServerInput::Stored { succeeded: flag }),
        (ServerAction::Poll { caught_up_with_lag: Some(lag) })@ == (ServerStep::Poll {
            caught_up_with_lag: Some(lag as int),
        }),
        ServerAction::WaitAndPoll@ is WaitAndPoll,
        ServerAction::Store(
            StoreBatch {
                messages,
                batch_count: number,
                needs_permit: flag,
                caught_up_with_lag: Some(lag),
            },
        )@ == (ServerStep::Store {
            messages: messages@,
            batch_count: number,
            needs_permit: flag,
            caught_up_with_lag: Some(lag as int),
        }),
{
}

// Steps of the server.

/// The lag of several partitions is the sum of their lags.
pub proof fn law_lags_add_up(lags: Seq<i64>, more: Seq<i64>, lag: i64)
    ensures
        total_lag(Seq::empty()) == 0,
        total_lag(seq![lag]) == lag,
        total_lag(lags + more) == total_lag(lags) + total_lag(more),
{
    let one = seq![lag];
    assert(one.drop_last() =~= Seq::<i64>::empty());
    reveal_with_fuel(total_lag, 2);
    lemma_lags_joined(lags, more);
}

proof fn lemma_lags_joined(lags: Seq<i64>, more: Seq<i64>)
    ensures
        total_lag(lags + more) == total_lag(lags) + total_lag(more),
    decreases more.len(),
{
    if more.len() == 0 {
        assert(lags + more =~= lags);
    } else {
        lemma_lags_joined(lags, more.drop_last());
        assert((lags + more).drop_last() =~= lags + more.drop_last());
        assert((lags + more).last() == more.last());
    }
}

/// The backlog counts as read exactly if the whole lag is less than a batch for each
/// partition. A poll shows that only if it succeeded and the lags are known.
pub proof fn law_when_the_backlog_is_read(
    lags: Seq<i64>,
    messages: Seq<KafkaMessage>,
    batch_size: usize,
)
    ensures
        is_caught_up(lags, batch_size) <==> total_lag(lags) < lags.len() * batch_size,
        total_lag(lags) < lags.len() * batch_size ==> caught_up_lag(
            ServerInput::Polled { messages: Some(messages), lags: Some(lags) },
            batch_size,
        ) == Some(total_lag(lags)),
        total_lag(lags) >= lags.len() * batch_size ==> caught_up_lag(
            ServerInput::Polled { messages: Some(messages), lags: Some(lags) },
            batch_size,
        ) is None,
        caught_up_lag(
            ServerInput::Polled { messages: Some(messages), lags: None },
            batch_size,
        ) is None,
        caught_up_lag(
            ServerInput::Polled { messages: None, lags: Some(lags) },
            batch_size,
        ) is None,
{
}

/// The steps of a worker of the server. It starts with nothing read and the backlog before
/// it. Messages of a poll are put behind those that were read before. Once there are enough
/// for a batch, all of them go into the store under the next number and none is held back;
/// else the worker polls on. A poll that failed is made again after a pause, and whatever
/// came of a batch the worker polls on.
pub proof fn law_steps_of_the_server(
    state: ServerState,
    messages: Seq<KafkaMessage>,
    lags: Option<Seq<i64>>,
    succeeded: bool,
    batch_size: usize,
)
    ensures
        server_start().phase is Polling,
        server_start().buffered.len() == 0,
        server_start().batches == 0,
        !server_start().initialized,
        ({
            let input = ServerInput::Polled { messages: Some(messages), lags };
            let polled = server_next(state, input, batch_size);
            let all = state.buffered + messages;
            let shows = caught_up_lag(input, batch_size);
            &&& polled.0.initialized <==> state.initialized || shows is Some
            &&& all.len() >= batch_size ==> {
                &&& polled.0.phase is Storing
                &&& polled.0.buffered.len() == 0
                &&& polled.0.batches == next_number(state.batches)
                &&& polled.1 matches ServerStep::Store {
                    messages: batch,
                    batch_count,
                    needs_permit,
                    caught_up_with_lag,
                } && batch == all && batch_count == next_number(state.batches) && needs_permit
                    == polled.0.initialized && (state.initialized ==> caught_up_with_lag is None)
                    && (!state.initialized ==> caught_up_with_lag == shows)
            }
            &&& all.len() < batch_size ==> {
                &&& polled.0.phase == state.phase
                &&& polled.0.buffered == all
                &&& polled.0.batches == state.batches
                &&& polled.1 matches ServerStep::Poll { caught_up_with_lag } && (state.initialized
                    ==> caught_up_with_lag is None) && (!state.initialized ==> caught_up_with_lag
                    == shows)
            }
        }),
        server_next(state, ServerInput::Polled { messages: None, lags }, batch_size) == (
            state,
            ServerStep::WaitAndPoll,
        ),
        ({
            let stored = server_next(state, ServerInput::Stored { succeeded }, batch_size);
            &&& stored.1 == (ServerStep::Poll { caught_up_with_lag: None })
            &&& stored.0.phase is Polling
            &&& stored.0.buffered == state.buffered
            &&& stored.0.batches == state.batches
            &&& stored.0.initialized == state.initialized
        }),
{
}

} // verus!
