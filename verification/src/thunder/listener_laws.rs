//! What holds of the workers that read a topic, over any number of polls.

use vstd::prelude::*;

use crate::thunder::listener::{
    caught_up_lag, feeder_expects, feeder_next, feeder_start, server_expects, server_next,
    server_start, FeederInput, FeederPhase, FeederState, FeederStep, ServerInput, ServerState,
    ServerStep,
};
use crate::thunder::schema::KafkaMessage;

verus! {

/// The messages of `batches`, one batch after the other.
pub open spec fn joined(batches: Seq<Seq<KafkaMessage>>) -> Seq<KafkaMessage>
    decreases batches.len(),
{
    if batches.len() == 0 {
        Seq::empty()
    } else {
        joined(batches.drop_last()) + batches.last()
    }
}

proof fn lemma_joined_push(batches: Seq<Seq<KafkaMessage>>, batch: Seq<KafkaMessage>)
    ensures
        joined(batches.push(batch)) == joined(batches) + batch,
{
    assert(batches.push(batch).drop_last() =~= batches);
}

// The feeder.

/// What a worker of the feeder is after `inputs`.
pub open spec fn feeder_after(inputs: Seq<FeederInput>, batch_size: usize) -> FeederState
    decreases inputs.len(),
{
    if inputs.len() == 0 {
        feeder_start()
    } else {
        feeder_next(feeder_after(inputs.drop_last(), batch_size), inputs.last(), batch_size).0
    }
}

/// What the worker does on meeting the `i`th of `inputs`.
pub open spec fn feeder_step(inputs: Seq<FeederInput>, batch_size: usize, i: int) -> FeederStep {
    feeder_next(feeder_after(inputs.take(i), batch_size), inputs[i], batch_size).1
}

/// Whether a worker can meet `inputs`: each is what it waits for.
pub open spec fn is_feeder_run(inputs: Seq<FeederInput>, batch_size: usize) -> bool {
    forall|i: int|
        0 <= i < inputs.len() ==> feeder_expects(
            feeder_after(inputs.take(i), batch_size).phase,
            #[trigger] inputs[i],
        )
}

/// The messages that the polls among `inputs` brought, in order.
pub open spec fn feeder_received(inputs: Seq<FeederInput>) -> Seq<KafkaMessage>
    decreases inputs.len(),
{
    if inputs.len() == 0 {
        Seq::empty()
    } else {
        match inputs.last() {
            FeederInput::Polled(Some(messages)) => feeder_received(inputs.drop_last()) + messages,
            _ => feeder_received(inputs.drop_last()),
        }
    }
}

/// The batches that the worker is told to process, in order.
pub open spec fn processed_batches(inputs: Seq<FeederInput>, batch_size: usize) -> Seq<
    Seq<KafkaMessage>,
>
    decreases inputs.len(),
{
    if inputs.len() == 0 {
        Seq::empty()
    } else {
        let before = processed_batches(inputs.drop_last(), batch_size);
        match feeder_step(inputs, batch_size, inputs.len() - 1) {
            FeederStep::Process { messages, .. } => before.push(messages),
            _ => before,
        }
    }
}

/// Over any number of polls, the batches that are processed, joined, and what is
/// still buffered are the messages that were read, in order, each once. A batch has
/// at least `batch_size` messages, and fewer stay buffered.
pub proof fn law_feeder_processes_every_message_once(inputs: Seq<FeederInput>, batch_size: usize)
    ensures
        joined(processed_batches(inputs, batch_size)) + feeder_after(inputs, batch_size).buffered
            == feeder_received(inputs),
        forall|b: int|
            0 <= b < processed_batches(inputs, batch_size).len()
                ==> (#[trigger] processed_batches(inputs, batch_size)[b]).len() >= batch_size,
        batch_size > 0 ==> feeder_after(inputs, batch_size).buffered.len() < batch_size,
        batch_size == 0 ==> feeder_after(inputs, batch_size).buffered.len() == 0,
    decreases inputs.len(),
{
    if inputs.len() > 0 {
        let front = inputs.drop_last();
        law_feeder_processes_every_message_once(front, batch_size);
        assert(inputs.take(inputs.len() - 1) =~= front);
        let before = processed_batches(front, batch_size);
        let buffered = feeder_after(front, batch_size).buffered;
        if let FeederInput::Polled(Some(messages)) = inputs.last() {
            let all = buffered + messages;
            assert(joined(before) + all =~= feeder_received(inputs));
            if all.len() >= batch_size {
                lemma_joined_push(before, all);
                assert(feeder_received(inputs) + Seq::<KafkaMessage>::empty() =~= feeder_received(
                    inputs,
                ));
            }
        }
    } else {
        assert(joined(processed_batches(inputs, batch_size)) + feeder_after(
            inputs,
            batch_size,
        ).buffered =~= feeder_received(inputs));
    }
}

/// Offsets are committed exactly when a batch was processed without failure: every
/// commit follows the processing of a batch, and nothing else happens in between.
pub proof fn law_feeder_commits_what_was_processed(
    inputs: Seq<FeederInput>,
    batch_size: usize,
    i: int,
)
    requires
        is_feeder_run(inputs, batch_size),
        0 <= i < inputs.len(),
    ensures
        feeder_step(inputs, batch_size, i) is Commit <==> inputs[i] == (FeederInput::Processed {
            succeeded: true,
        }),
        feeder_step(inputs, batch_size, i) is Commit ==> i > 0 && feeder_step(
            inputs,
            batch_size,
            i - 1,
        ) is Process,
        feeder_step(inputs, batch_size, i) is Process && i + 1 < inputs.len() ==> inputs[i
            + 1] is Processed,
{
    lemma_feeder_phase(inputs, batch_size, i);
    assert(feeder_expects(feeder_after(inputs.take(i), batch_size).phase, inputs[i]));
    if i + 1 < inputs.len() {
        lemma_feeder_phase(inputs, batch_size, i + 1);
        assert(feeder_expects(feeder_after(inputs.take(i + 1), batch_size).phase, inputs[i + 1]));
    }
}

proof fn lemma_feeder_phase(inputs: Seq<FeederInput>, batch_size: usize, i: int)
    requires
        0 <= i < inputs.len(),
    ensures
        i == 0 ==> feeder_after(inputs.take(i), batch_size) == feeder_start(),
        i > 0 ==> feeder_after(inputs.take(i), batch_size) == feeder_next(
            feeder_after(inputs.take(i - 1), batch_size),
            inputs[i - 1],
            batch_size,
        ).0,
        i > 0 && feeder_after(inputs.take(i), batch_size).phase
            == FeederPhase::Processing && is_feeder_run(
            inputs,
            batch_size,
        ) ==> feeder_step(inputs, batch_size, i - 1) is Process,
{
    if i > 0 {
        assert(inputs.take(i).drop_last() =~= inputs.take(i - 1));
        assert(is_feeder_run(inputs, batch_size) ==> feeder_expects(
            feeder_after(inputs.take(i - 1), batch_size).phase,
            inputs[i - 1],
        ));
    }
}

/// A worker ends exactly on a batch or a commit that failed, and meets nothing
/// after that. A poll that fails is made again, and loses nothing.
pub proof fn law_feeder_ends_only_on_failure(
    inputs: Seq<FeederInput>,
    batch_size: usize,
    i: int,
)
    requires
        is_feeder_run(inputs, batch_size),
        0 <= i < inputs.len(),
    ensures
        feeder_step(inputs, batch_size, i) is Stop <==> inputs[i] == (FeederInput::Processed {
            succeeded: false,
        }) || inputs[i] == (FeederInput::Committed { succeeded: false }),
        feeder_step(inputs, batch_size, i) is Stop ==> i == inputs.len() - 1,
        inputs[i] == FeederInput::Polled(None) ==> feeder_step(inputs, batch_size, i)
            is WaitAndPoll && feeder_after(inputs.take(i + 1), batch_size) == feeder_after(
            inputs.take(i),
            batch_size,
        ),
{
    assert(inputs.take(i + 1).drop_last() =~= inputs.take(i));
    if i + 1 < inputs.len() {
        lemma_feeder_phase(inputs, batch_size, i + 1);
        assert(feeder_expects(feeder_after(inputs.take(i + 1), batch_size).phase, inputs[i + 1]));
    }
}

// The server.

/// What a worker of the server is after `inputs`.
pub open spec fn server_after(inputs: Seq<ServerInput>, batch_size: usize) -> ServerState
    decreases inputs.len(),
{
    if inputs.len() == 0 {
        server_start()
    } else {
        server_next(server_after(inputs.drop_last(), batch_size), inputs.last(), batch_size).0
    }
}

/// What the worker does on meeting the `i`th of `inputs`.
pub open spec fn server_step(inputs: Seq<ServerInput>, batch_size: usize, i: int) -> ServerStep {
    server_next(server_after(inputs.take(i), batch_size), inputs[i], batch_size).1
}

/// Whether a worker can meet `inputs`: each is what it waits for.
pub open spec fn is_server_run(inputs: Seq<ServerInput>, batch_size: usize) -> bool {
    forall|i: int|
        0 <= i < inputs.len() ==> server_expects(
            server_after(inputs.take(i), batch_size).phase,
            #[trigger] inputs[i],
        )
}

/// The messages that the polls brought, in order.
pub open spec fn server_received(inputs: Seq<ServerInput>) -> Seq<KafkaMessage>
    decreases inputs.len(),
{
    if inputs.len() == 0 {
        Seq::empty()
    } else {
        match inputs.last() {
            ServerInput::Polled { messages: Some(messages), .. } => server_received(
                inputs.drop_last(),
            ) + messages,
            _ => server_received(inputs.drop_last()),
        }
    }
}

/// The batches that the worker is told to take into the store, in order.
pub open spec fn stored_batches(inputs: Seq<ServerInput>, batch_size: usize) -> Seq<
    Seq<KafkaMessage>,
>
    decreases inputs.len(),
{
    if inputs.len() == 0 {
        Seq::empty()
    } else {
        let before = stored_batches(inputs.drop_last(), batch_size);
        match server_step(inputs, batch_size, inputs.len() - 1) {
            ServerStep::Store { messages, .. } => before.push(messages),
            _ => before,
        }
    }
}

/// Over any number of polls, the batches that are taken in, joined, and what is
/// still buffered are the messages that were read, in order, each once. A batch has
/// at least `batch_size` messages, and fewer stay buffered.
pub proof fn law_server_stores_every_message_once(inputs: Seq<ServerInput>, batch_size: usize)
    ensures
        joined(stored_batches(inputs, batch_size)) + server_after(inputs, batch_size).buffered
            == server_received(inputs),
        forall|b: int|
            0 <= b < stored_batches(inputs, batch_size).len()
                ==> (#[trigger] stored_batches(inputs, batch_size)[b]).len() >= batch_size,
        batch_size > 0 ==> server_after(inputs, batch_size).buffered.len() < batch_size,
        batch_size == 0 ==> server_after(inputs, batch_size).buffered.len() == 0,
    decreases inputs.len(),
{
    if inputs.len() > 0 {
        let front = inputs.drop_last();
        law_server_stores_every_message_once(front, batch_size);
        assert(inputs.take(inputs.len() - 1) =~= front);
        let before = stored_batches(front, batch_size);
        let buffered = server_after(front, batch_size).buffered;
        if let ServerInput::Polled { messages: Some(messages), .. } = inputs.last() {
            let all = buffered + messages;
            assert(joined(before) + all =~= server_received(inputs));
            if all.len() >= batch_size {
                lemma_joined_push(before, all);
                assert(server_received(inputs) + Seq::<KafkaMessage>::empty() =~= server_received(
                    inputs,
                ));
            }
        }
    } else {
        assert(joined(stored_batches(inputs, batch_size)) + server_after(
            inputs,
            batch_size,
        ).buffered =~= server_received(inputs));
    }
}

/// Whether one of the polls has shown that the backlog is read.
pub open spec fn has_caught_up(inputs: Seq<ServerInput>, batch_size: usize) -> bool {
    exists|i: int| 0 <= i < inputs.len() && caught_up_lag(#[trigger] inputs[i], batch_size) is Some
}

proof fn lemma_initialized(inputs: Seq<ServerInput>, batch_size: usize)
    ensures
        server_after(inputs, batch_size).initialized == has_caught_up(inputs, batch_size),
    decreases inputs.len(),
{
    if inputs.len() > 0 {
        let front = inputs.drop_last();
        lemma_initialized(front, batch_size);
        if has_caught_up(front, batch_size) {
            let i = choose|i: int|
                0 <= i < front.len() && caught_up_lag(#[trigger] front[i], batch_size) is Some;
            assert(caught_up_lag(inputs[i], batch_size) is Some);
        }
        if caught_up_lag(inputs.last(), batch_size) is Some {
            assert(caught_up_lag(inputs[inputs.len() - 1], batch_size) is Some);
        }
        if has_caught_up(inputs, batch_size) {
            let i = choose|i: int|
                0 <= i < inputs.len() && caught_up_lag(#[trigger] inputs[i], batch_size) is Some;
            if i < front.len() {
                assert(caught_up_lag(front[i], batch_size) is Some);
            }
        }
    }
}

/// The lag that a step reports.
pub open spec fn reported_lag(step: ServerStep) -> Option<int> {
    match step {
        ServerStep::Poll { caught_up_with_lag } => caught_up_with_lag,
        ServerStep::WaitAndPoll => None,
        ServerStep::Store { caught_up_with_lag, .. } => caught_up_with_lag,
    }
}

/// Each batch is taken into the store once, before the next poll, and nothing else
/// is. Whatever came of it, the worker polls on.
pub proof fn law_server_stores_each_batch_before_polling_on(
    inputs: Seq<ServerInput>,
    batch_size: usize,
    i: int,
)
    requires
        is_server_run(inputs, batch_size),
        0 <= i < inputs.len(),
    ensures
        i + 1 < inputs.len() ==> (server_step(inputs, batch_size, i) is Store <==> inputs[i
            + 1] is Stored),
        inputs[i] is Stored ==> i > 0 && server_step(inputs, batch_size, i) == (ServerStep::Poll {
            caught_up_with_lag: None,
        }) && server_after(inputs.take(i + 1), batch_size).buffered == server_after(
            inputs.take(i),
            batch_size,
        ).buffered,
{
    assert(server_expects(server_after(inputs.take(i), batch_size).phase, inputs[i]));
    assert(inputs.take(i + 1).drop_last() =~= inputs.take(i));
    if i + 1 < inputs.len() {
        assert(server_expects(server_after(inputs.take(i + 1), batch_size).phase, inputs[i + 1]));
    }
}

/// A batch needs a permit exactly when a poll up to then has shown that the backlog
/// is read. A poll that fails changes nothing.
pub proof fn law_server_needs_permits_once_caught_up(
    inputs: Seq<ServerInput>,
    batch_size: usize,
    i: int,
)
    requires
        0 <= i < inputs.len(),
    ensures
        server_step(inputs, batch_size, i) matches ServerStep::Store { needs_permit, .. }
            ==> needs_permit == has_caught_up(inputs.take(i + 1), batch_size),
        inputs[i] matches ServerInput::Polled { messages: None, .. } ==> {
            &&& server_step(inputs, batch_size, i) is WaitAndPoll
            &&& server_after(inputs.take(i + 1), batch_size) == server_after(
                inputs.take(i),
                batch_size,
            )
        },
{
    assert(inputs.take(i + 1).drop_last() =~= inputs.take(i));
    lemma_initialized(inputs.take(i + 1), batch_size);
}

/// The lag is reported after the poll that first shows that the backlog is read,
/// whether or not that poll fills a batch, and after no other.
pub proof fn law_server_reports_the_first_catch_up(
    inputs: Seq<ServerInput>,
    batch_size: usize,
    i: int,
)
    requires
        0 <= i < inputs.len(),
    ensures
        reported_lag(server_step(inputs, batch_size, i)) == if has_caught_up(
            inputs.take(i),
            batch_size,
        ) {
            None
        } else {
            caught_up_lag(inputs[i], batch_size)
        },
{
    lemma_initialized(inputs.take(i), batch_size);
}

/// How many lags are reported.
pub open spec fn report_count(inputs: Seq<ServerInput>, batch_size: usize) -> nat
    decreases inputs.len(),
{
    if inputs.len() == 0 {
        0
    } else {
        let before = report_count(inputs.drop_last(), batch_size);
        if reported_lag(server_step(inputs, batch_size, inputs.len() - 1)) is Some {
            before + 1
        } else {
            before
        }
    }
}

/// A worker that has caught up has reported it once, and one that has not has not
/// reported anything.
pub proof fn law_server_reports_once(inputs: Seq<ServerInput>, batch_size: usize)
    ensures
        report_count(inputs, batch_size) == if has_caught_up(inputs, batch_size) {
            1nat
        } else {
            0nat
        },
    decreases inputs.len(),
{
    lemma_initialized(inputs, batch_size);
    if inputs.len() > 0 {
        let front = inputs.drop_last();
        law_server_reports_once(front, batch_size);
        lemma_initialized(front, batch_size);
        assert(inputs.take(inputs.len() - 1) =~= front);
    }
}

} // verus!
