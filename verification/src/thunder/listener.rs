//! When the workers that read a topic process what they have read.
//!
//! A worker tells one of the listeners here what happened, and does what the
//! listener answers.

use vstd::prelude::*;

use crate::thunder::schema::KafkaMessage;

verus! {

/// How long a worker waits after a poll that failed.
pub const POLL_RETRY_MS: u64 = 100;

/// How many messages the feeder polls at once.
pub const FEEDER_POLL_SIZE: usize = 100;

/// How many batches may be taken into the store at the same time once the
/// backlog is read.
pub const MAX_CONCURRENT_BATCHES: usize = 3;

/// The number that follows `count`, as long as there is one.
pub open spec fn next_number(count: usize) -> usize {
    if count < usize::MAX {
        (count + 1) as usize
    } else {
        count
    }
}

fn count_up(count: usize) -> (next: usize)
    ensures
        next == next_number(count),
{
    if count < usize::MAX {
        count + 1
    } else {
        count
    }
}

// The feeder.

/// What happened to a worker of the feeder.
#[derive(Clone, Debug, PartialEq, Eq)]
pub enum FeederEvent {
    /// A poll brought messages, or failed.
    Polled(Option<Vec<KafkaMessage>>),
    /// The batch was processed, or could not be.
    Processed { succeeded: bool },
    /// The offsets were committed, or could not be.
    Committed { succeeded: bool },
}

/// What a worker of the feeder does next.
#[derive(Clone, Debug, PartialEq, Eq)]
pub enum FeederAction {
    /// Poll again.
    Poll,
    /// Wait `POLL_RETRY_MS` milliseconds, then poll again.
    WaitAndPoll,
    /// Process the messages.
    Process { messages: Vec<KafkaMessage>, batch_num: usize },
    /// Commit the offsets.
    Commit,
    /// End with the failure that was met.
    Stop,
}

/// What a worker of the feeder waits for.
#[derive(Clone, Copy, Debug, PartialEq, Eq, Structural)]
pub enum FeederPhase {
    Polling,
    Processing,
    Committing,
    Stopped,
}

/// What happened to a worker of the feeder, by the messages.
#[verifier::ext_equal]
pub enum FeederInput {
    Polled(Option<Seq<KafkaMessage>>),
    Processed { succeeded: bool },
    Committed { succeeded: bool },
}

impl View for FeederEvent {
    type V = FeederInput;

    open spec fn view(&self) -> FeederInput {
        match self {
            FeederEvent::Polled(Some(messages)) => FeederInput::Polled(Some(messages@)),
            FeederEvent::Polled(None) => FeederInput::Polled(None),
            FeederEvent::Processed { succeeded } => FeederInput::Processed {
                succeeded: *succeeded,
            },
            FeederEvent::Committed { succeeded } => FeederInput::Committed {
                succeeded: *succeeded,
            },
        }
    }
}

/// What a worker of the feeder does next, by the messages.
#[verifier::ext_equal]
pub enum FeederStep {
    Poll,
    WaitAndPoll,
    Process { messages: Seq<KafkaMessage>, batch_num: usize },
    Commit,
    Stop,
}

impl View for FeederAction {
    type V = FeederStep;

    open spec fn view(&self) -> FeederStep {
        match self {
            FeederAction::Poll => FeederStep::Poll,
            FeederAction::WaitAndPoll => FeederStep::WaitAndPoll,
            FeederAction::Process { messages, batch_num } => FeederStep::Process {
                messages: messages@,
                batch_num: *batch_num,
            },
            FeederAction::Commit => FeederStep::Commit,
            FeederAction::Stop => FeederStep::Stop,
        }
    }
}

/// A worker of the feeder: what it waits for, what it has read and not yet
/// processed, and how many batches it has processed.
#[verifier::ext_equal]
pub struct FeederState {
    pub phase: FeederPhase,
    pub buffered: Seq<KafkaMessage>,
    pub batches: usize,
}

/// A worker that has read nothing.
pub open spec fn feeder_start() -> FeederState {
    FeederState { phase: FeederPhase::Polling, buffered: Seq::empty(), batches: 0 }
}

/// Whether a worker that waits for `phase` can meet `input`.
pub open spec fn feeder_expects(phase: FeederPhase, input: FeederInput) -> bool {
    match phase {
        FeederPhase::Polling => input is Polled,
        FeederPhase::Processing => input is Processed,
        FeederPhase::Committing => input is Committed,
        FeederPhase::Stopped => false,
    }
}

/// What a worker becomes, and what it does, when it meets `input`. Messages pile
/// up until there are enough for a batch; then all of them are processed. The
/// offsets are committed once a batch is processed. A poll that fails is made
/// again; any other failure ends the worker.
pub open spec fn feeder_next(state: FeederState, input: FeederInput, batch_size: usize) -> (
    FeederState,
    FeederStep,
) {
    match input {
        FeederInput::Polled(None) => (state, FeederStep::WaitAndPoll),
        FeederInput::Polled(Some(messages)) => {
            let all = state.buffered + messages;
            let batch_num = next_number(state.batches);
            if all.len() >= batch_size {
                (
                    FeederState {
                        phase: FeederPhase::Processing,
                        buffered: Seq::empty(),
                        batches: batch_num,
                    },
                    FeederStep::Process { messages: all, batch_num },
                )
            } else {
                (FeederState { buffered: all, ..state }, FeederStep::Poll)
            }
        },
        FeederInput::Processed { succeeded: true } => (
            FeederState { phase: FeederPhase::Committing, ..state },
            FeederStep::Commit,
        ),
        FeederInput::Committed { succeeded: true } => (
            FeederState { phase: FeederPhase::Polling, ..state },
            FeederStep::Poll,
        ),
        _ => (FeederState { phase: FeederPhase::Stopped, ..state }, FeederStep::Stop),
    }
}

/// A worker of the feeder.
pub struct FeederListener {
    phase: FeederPhase,
    message_buffer: Vec<KafkaMessage>,
    batch_num: usize,
    batch_size: usize,
}

impl View for FeederListener {
    type V = FeederState;

    closed spec fn view(&self) -> FeederState {
        FeederState {
            phase: self.phase,
            buffered: self.message_buffer@,
            batches: self.batch_num,
        }
    }
}

impl FeederListener {
    /// How many messages make a batch.
    pub closed spec fn batch_size(&self) -> usize {
        self.batch_size
    }

    /// A worker that has read nothing.
    pub fn new(batch_size: usize) -> (listener: FeederListener)
        ensures
            listener@ == feeder_start(),
            listener.batch_size() == batch_size,
    {
        FeederListener {
            phase: FeederPhase::Polling,
            message_buffer: Vec::new(),
            batch_num: 0,
            batch_size,
        }
    }

    /// What follows an event that the worker waited for.
    pub fn process_tweet_events(&mut self, event: FeederEvent) -> (action: FeederAction)
        requires
            feeder_expects(old(self)@.phase, event@),
        ensures
            final(self).batch_size() == old(self).batch_size(),
            (final(self)@, action@) == feeder_next(old(self)@, event@, old(self).batch_size()),
    {
        match event {
            FeederEvent::Polled(None) => FeederAction::WaitAndPoll,
            FeederEvent::Polled(Some(messages)) => {
                let mut messages = messages;
                self.message_buffer.append(&mut messages);
                if self.message_buffer.len() >= self.batch_size {
                    self.batch_num = count_up(self.batch_num);
                    self.phase = FeederPhase::Processing;
                    let mut batch: Vec<KafkaMessage> = Vec::new();
                    std::mem::swap(&mut batch, &mut self.message_buffer);
                    FeederAction::Process { messages: batch, batch_num: self.batch_num }
                } else {
                    FeederAction::Poll
                }
            },
            FeederEvent::Processed { succeeded } => {
                if succeeded {
                    self.phase = FeederPhase::Committing;
                    FeederAction::Commit
                } else {
                    self.phase = FeederPhase::Stopped;
                    FeederAction::Stop
                }
            },
            FeederEvent::Committed { succeeded } => {
                if succeeded {
                    self.phase = FeederPhase::Polling;
                    FeederAction::Poll
                } else {
                    self.phase = FeederPhase::Stopped;
                    FeederAction::Stop
                }
            },
        }
    }
}

// The server.

/// The sum of `lags`.
pub open spec fn total_lag(lags: Seq<i64>) -> int
    decreases lags.len(),
{
    if lags.len() == 0 {
        0
    } else {
        total_lag(lags.drop_last()) + lags.last()
    }
}

/// Whether a worker that is behind by `lags`, partition by partition, has read
/// the backlog but for about one batch per partition.
pub open spec fn is_caught_up(lags: Seq<i64>, batch_size: usize) -> bool {
    total_lag(lags) < lags.len() * batch_size
}

fn sum_lags(lags: &Vec<i64>) -> (sum: i128)
    ensures
        sum == total_lag(lags@),
{
    let mut sum: i128 = 0;
    let mut i: usize = 0;
    while i < lags.len()
        invariant
            i <= lags.len(),
            sum == total_lag(lags@.take(i as int)),
            -0x8000_0000_0000_0000 * i <= sum <= 0x8000_0000_0000_0000 * i,
        decreases lags.len() - i,
    {
        assert(lags@.take(i + 1).drop_last() =~= lags@.take(i as int));
        sum = sum + lags[i] as i128;
        i = i + 1;
    }
    assert(lags@.take(i as int) =~= lags@);
    sum
}

/// What happened to a worker of the server.
#[derive(Clone, Debug, PartialEq, Eq)]
pub enum ServerEvent {
    /// A poll brought messages, or failed. `lags` are those of the partitions after
    /// it, where they were wanted and known.
    Polled { messages: Option<Vec<KafkaMessage>>, lags: Option<Vec<i64>> },
    /// The batch was taken into the store, or could not be.
    Stored { succeeded: bool },
}

/// What a worker of the server waits for.
#[derive(Clone, Copy, Debug, PartialEq, Eq, Structural)]
pub enum ServerPhase {
    Polling,
    Storing,
}

/// A batch of compact messages to take into the store.
#[derive(Clone, Debug, PartialEq, Eq)]
pub struct StoreBatch {
    pub messages: Vec<KafkaMessage>,
    pub batch_count: usize,
    /// Whether one of the `MAX_CONCURRENT_BATCHES` permits is needed for it.
    pub needs_permit: bool,
    /// The lag to report once the batch is in, where the worker has just caught
    /// up.
    pub caught_up_with_lag: Option<i128>,
}

/// What a worker of the server does next.
#[derive(Clone, Debug, PartialEq, Eq)]
pub enum ServerAction {
    /// Report the lag, where the worker has just caught up, then poll again.
    Poll { caught_up_with_lag: Option<i128> },
    /// Wait `POLL_RETRY_MS` milliseconds, then poll again.
    WaitAndPoll,
    /// Take the batch into the store.
    Store(StoreBatch),
}

/// What a worker of the server does next, by the messages.
#[verifier::ext_equal]
pub enum ServerStep {
    Poll { caught_up_with_lag: Option<int> },
    WaitAndPoll,
    Store {
        messages: Seq<KafkaMessage>,
        batch_count: usize,
        needs_permit: bool,
        caught_up_with_lag: Option<int>,
    },
}

/// The lag as a number.
pub open spec fn lag_number(lag: Option<i128>) -> Option<int> {
    match lag {
        Some(lag) => Some(lag as int),
        None => None,
    }
}

impl View for ServerAction {
    type V = ServerStep;

    open spec fn view(&self) -> ServerStep {
        match self {
            ServerAction::Poll { caught_up_with_lag } => ServerStep::Poll {
                caught_up_with_lag: lag_number(*caught_up_with_lag),
            },
            ServerAction::WaitAndPoll => ServerStep::WaitAndPoll,
            ServerAction::Store(batch) => ServerStep::Store {
                messages: batch.messages@,
                batch_count: batch.batch_count,
                needs_permit: batch.needs_permit,
                caught_up_with_lag: lag_number(batch.caught_up_with_lag),
            },
        }
    }
}

/// What happened to a worker of the server, by the messages.
#[verifier::ext_equal]
pub enum ServerInput {
    Polled { messages: Option<Seq<KafkaMessage>>, lags: Option<Seq<i64>> },
    Stored { succeeded: bool },
}

/// A sequence that may be missing, by its elements.
pub open spec fn elements<T>(items: Option<Vec<T>>) -> Option<Seq<T>> {
    match items {
        Some(items) => Some(items@),
        None => None,
    }
}

impl View for ServerEvent {
    type V = ServerInput;

    open spec fn view(&self) -> ServerInput {
        match self {
            ServerEvent::Polled { messages, lags } => ServerInput::Polled {
                messages: elements(*messages),
                lags: elements(*lags),
            },
            ServerEvent::Stored { succeeded } => ServerInput::Stored { succeeded: *succeeded },
        }
    }
}

/// A worker of the server: what it waits for, what it has read and not yet taken
/// into the store, how many batches it has taken in, and whether the backlog is
/// read.
#[verifier::ext_equal]
pub struct ServerState {
    pub phase: ServerPhase,
    pub buffered: Seq<KafkaMessage>,
    pub batches: usize,
    pub initialized: bool,
}

/// A worker that has read nothing.
pub open spec fn server_start() -> ServerState {
    ServerState {
        phase: ServerPhase::Polling,
        buffered: Seq::empty(),
        batches: 0,
        initialized: false,
    }
}

/// Whether a worker that waits for `phase` can meet `input`.
pub open spec fn server_expects(phase: ServerPhase, input: ServerInput) -> bool {
    match phase {
        ServerPhase::Polling => input is Polled,
        ServerPhase::Storing => input is Stored,
    }
}

/// The total lag of a poll that shows that the backlog is read.
pub open spec fn caught_up_lag(input: ServerInput, batch_size: usize) -> Option<int> {
    match input {
        ServerInput::Polled { messages: Some(_), lags: Some(lags) } => if is_caught_up(
            lags,
            batch_size,
        ) {
            Some(total_lag(lags))
        } else {
            None
        },
        _ => None,
    }
}

/// What a worker becomes, and what it does, when it meets `input`. Messages pile up
/// until there are enough for a batch. As long as the backlog is not read, batches
/// go in without a permit. The poll that first shows it read has its lag reported,
/// whether or not it fills a batch. Whatever came of a poll or of a batch, the
/// worker polls on.
pub open spec fn server_next(state: ServerState, input: ServerInput, batch_size: usize) -> (
    ServerState,
    ServerStep,
) {
    match input {
        ServerInput::Stored { .. } => (
            ServerState { phase: ServerPhase::Polling, ..state },
            ServerStep::Poll { caught_up_with_lag: None },
        ),
        ServerInput::Polled { messages: None, .. } => (state, ServerStep::WaitAndPoll),
        ServerInput::Polled { messages: Some(messages), .. } => {
            let all = state.buffered + messages;
            let caught_up_with_lag = if state.initialized {
                None
            } else {
                caught_up_lag(input, batch_size)
            };
            let initialized = state.initialized || caught_up_with_lag is Some;
            if all.len() >= batch_size {
                (
                    ServerState {
                        phase: ServerPhase::Storing,
                        buffered: Seq::empty(),
                        batches: next_number(state.batches),
                        initialized,
                    },
                    ServerStep::Store {
                        messages: all,
                        batch_count: next_number(state.batches),
                        needs_permit: initialized,
                        caught_up_with_lag,
                    },
                )
            } else {
                (
                    ServerState { buffered: all, initialized, ..state },
                    ServerStep::Poll { caught_up_with_lag },
                )
            }
        },
    }
}

/// A worker of the server.
pub struct ServerListener {
    phase: ServerPhase,
    message_buffer: Vec<KafkaMessage>,
    batch_count: usize,
    init_data_downloaded: bool,
    batch_size: usize,
}

impl View for ServerListener {
    type V = ServerState;

    closed spec fn view(&self) -> ServerState {
        ServerState {
            phase: self.phase,
            buffered: self.message_buffer@,
            batches: self.batch_count,
            initialized: self.init_data_downloaded,
        }
    }
}

impl ServerListener {
    /// How many messages make a batch.
    pub closed spec fn batch_size(&self) -> usize {
        self.batch_size
    }

    /// A worker that has read nothing.
    pub fn new(batch_size: usize) -> (listener: ServerListener)
        ensures
            listener@ == server_start(),
            listener.batch_size() == batch_size,
    {
        ServerListener {
            phase: ServerPhase::Polling,
            message_buffer: Vec::new(),
            batch_count: 0,
            init_data_downloaded: false,
            batch_size,
        }
    }

    /// Whether the lags of the partitions are wanted after a poll: as long as
    /// the backlog is not read.
    pub fn wants_lags(&self) -> (wants: bool)
        ensures
            wants == !self@.initialized,
    {
        !self.init_data_downloaded
    }

    /// What follows an event that the worker waited for.
    pub fn process_tweet_events_v2(&mut self, event: ServerEvent) -> (action: ServerAction)
        requires
            server_expects(old(self)@.phase, event@),
        ensures
            final(self).batch_size() == old(self).batch_size(),
            (final(self)@, action@) == server_next(old(self)@, event@, old(self).batch_size()),
    {
        let (mut messages, lags) = match event {
            ServerEvent::Stored { .. } => {
                self.phase = ServerPhase::Polling;
                return ServerAction::Poll { caught_up_with_lag: None };
            },
            ServerEvent::Polled { messages: None, .. } => return ServerAction::WaitAndPoll,
            ServerEvent::Polled { messages: Some(messages), lags } => (messages, lags),
        };
        let mut caught_up_with_lag: Option<i128> = None;
        if !self.init_data_downloaded {
            if let Some(lags) = &lags {
                let lag = sum_lags(lags);
                let bound: u128 = {
                    proof {
                        lemma_product_fits(lags.len(), self.batch_size);
                    }
                    lags.len() as u128 * self.batch_size as u128
                };
                if lag < 0 || (lag as u128) < bound {
                    self.init_data_downloaded = true;
                    caught_up_with_lag = Some(lag);
                }
            }
        }
        self.message_buffer.append(&mut messages);
        if self.message_buffer.len() >= self.batch_size {
            self.batch_count = count_up(self.batch_count);
            self.phase = ServerPhase::Storing;
            let mut batch: Vec<KafkaMessage> = Vec::new();
            std::mem::swap(&mut batch, &mut self.message_buffer);
            ServerAction::Store(
                StoreBatch {
                    messages: batch,
                    batch_count: self.batch_count,
                    needs_permit: self.init_data_downloaded,
                    caught_up_with_lag,
                },
            )
        } else {
            ServerAction::Poll { caught_up_with_lag }
        }
    }
}

proof fn lemma_product_fits(a: usize, b: usize)
    ensures
        0 <= a * b <= u128::MAX,
{
    assert(0 <= a * b <= 0xffff_ffff_ffff_ffff * 0xffff_ffff_ffff_ffff) by (nonlinear_arith)
        requires
            0 <= a <= 0xffff_ffff_ffff_ffff,
            0 <= b <= 0xffff_ffff_ffff_ffff,
    ;
}

} // verus!
