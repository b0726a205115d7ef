//! The options of the client: defaults, and what a set of options asks of the
//! consumer builder.
use vstd::prelude::*;

verus! {

/// The server that a client connects to where none is named.
pub fn server_address(conn: Option<String>) -> (address: String)
    ensures
        address@ == (match conn {
            Some(named) => named@,
            None => "127.0.0.1:8090"@,
        }),
{
    match conn {
        Some(named) => named,
        None => "127.0.0.1:8090".to_string(),
    }
}

/// Whether a user may log in.
#[derive(Debug, Clone, Copy, PartialEq, Eq, Structural)]
pub enum UserStatus {
    Active,
    Inactive,
}

/// The status of a user that is created: active where none is given.
pub fn new_user_status(status: Option<UserStatus>) -> (chosen: UserStatus)
    ensures
        chosen == (match status {
            Some(given) => given,
            None => UserStatus::Active,
        }),
{
    match status {
        Some(given) => given,
        None => UserStatus::Active,
    }
}

/// How a topic compresses its messages.
#[derive(Debug, Clone, Copy, PartialEq, Eq, Structural)]
pub enum CompressionChoice {
    Default,
    /// The algorithm that the caller names, which is still to be looked up.
    Named,
}

/// When a topic's messages expire.
#[derive(Debug, Clone, Copy, PartialEq, Eq, Structural)]
pub enum ExpiryChoice {
    ServerDefault,
    /// After that many microseconds.
    Duration(u64),
}

/// How large a topic may grow.
#[derive(Debug, Clone, Copy, PartialEq, Eq, Structural)]
pub enum SizeChoice {
    ServerDefault,
    /// That many bytes.
    UpTo(u64),
}

/// The settings of a topic that is created or updated.
#[derive(Debug, Clone, Copy, PartialEq, Eq, Structural)]
pub struct TopicSettings {
    pub compression: CompressionChoice,
    pub replication_factor: Option<u8>,
    pub expiry: ExpiryChoice,
    pub max_size: SizeChoice,
}

/// The settings that the given options stand for.
pub open spec fn settings_of(
    compression_named: bool,
    replication_factor: Option<u8>,
    message_expiry: Option<u64>,
    max_topic_size: Option<u64>,
) -> TopicSettings {
    TopicSettings {
        compression: if compression_named {
            CompressionChoice::Named
        } else {
            CompressionChoice::Default
        },
        replication_factor,
        expiry: match message_expiry {
            Some(micros) => ExpiryChoice::Duration(micros),
            None => ExpiryChoice::ServerDefault,
        },
        max_size: match max_topic_size {
            Some(bytes) => SizeChoice::UpTo(bytes),
            None => SizeChoice::ServerDefault,
        },
    }
}

/// The settings of a topic. What is not given becomes its default, in an
/// update too: an update keeps nothing of the settings before it.
pub fn topic_settings(
    compression_named: bool,
    replication_factor: Option<u8>,
    message_expiry: Option<u64>,
    max_topic_size: Option<u64>,
) -> (settings: TopicSettings)
    ensures
        settings == settings_of(
            compression_named,
            replication_factor,
            message_expiry,
            max_topic_size,
        ),
{
    let compression = if compression_named {
        CompressionChoice::Named
    } else {
        CompressionChoice::Default
    };
    let expiry = match message_expiry {
        Some(micros) => ExpiryChoice::Duration(micros),
        None => ExpiryChoice::ServerDefault,
    };
    let max_size = match max_topic_size {
        Some(bytes) => SizeChoice::UpTo(bytes),
        None => SizeChoice::ServerDefault,
    };
    TopicSettings { compression, replication_factor, expiry, max_size }
}

/// The options of a consumer of a group. Intervals are microseconds.
#[derive(Debug, Clone, Copy)]
pub struct ConsumerGroupOptions {
    pub partition_id: Option<u32>,
    /// Whether a polling strategy is given.
    pub polling_strategy: bool,
    pub batch_length: Option<u32>,
    /// Whether an auto-commit mode is given.
    pub auto_commit: bool,
    pub create_consumer_group_if_not_exists: bool,
    pub auto_join_consumer_group: bool,
    pub poll_interval: Option<u64>,
    pub polling_retry_interval: Option<u64>,
    pub init_retries: Option<u32>,
    pub init_retry_interval: Option<u64>,
    pub allow_replay: bool,
}

/// A call of the consumer builder.
#[derive(Debug, Clone, Copy, PartialEq, Eq, Structural)]
pub enum BuilderCall {
    WithoutEncryptor,
    Partition(Option<u32>),
    CreateGroupIfNotExists,
    DoNotCreateGroupIfNotExists,
    AutoJoinGroup,
    DoNotAutoJoinGroup,
    /// With the strategy that the caller gives.
    PollingStrategy,
    BatchLength(u32),
    /// With the mode that the caller gives.
    AutoCommit,
    PollInterval(u64),
    WithoutPollInterval,
    PollingRetryInterval(u64),
    InitRetries(u32, u64),
    AllowReplay,
}

/// Why a set of options is refused: the count and the interval of the retries
/// come together.
#[derive(Debug, Clone, Copy, PartialEq, Eq, Structural)]
pub enum OptionsError {
    MissingInitRetryInterval,
    MissingInitRetries,
}

impl OptionsError {
    /// What the caller is told.
    pub fn message(&self) -> (text: String)
        ensures
            text@ == (match self {
                OptionsError::MissingInitRetryInterval =>
                    "'init_retry_interval' is required if 'init_retries' is set"@,
                OptionsError::MissingInitRetries =>
                    "'init_retries' is required if 'init_retry_interval' is set"@,
            }),
    {
        match self {
            OptionsError::MissingInitRetryInterval =>
                "'init_retry_interval' is required if 'init_retries' is set".to_string(),
            OptionsError::MissingInitRetries =>
                "'init_retries' is required if 'init_retry_interval' is set".to_string(),
        }
    }
}

/// One call where `wanted`, and none else.
pub open spec fn call_if(wanted: bool, call: BuilderCall) -> Seq<BuilderCall> {
    if wanted {
        seq![call]
    } else {
        Seq::empty()
    }
}

/// The calls that every consumer of a group makes.
pub open spec fn leading_calls_of(options: ConsumerGroupOptions) -> Seq<BuilderCall> {
    seq![
        BuilderCall::WithoutEncryptor,
        BuilderCall::Partition(options.partition_id),
        if options.create_consumer_group_if_not_exists {
            BuilderCall::CreateGroupIfNotExists
        } else {
            BuilderCall::DoNotCreateGroupIfNotExists
        },
        if options.auto_join_consumer_group {
            BuilderCall::AutoJoinGroup
        } else {
            BuilderCall::DoNotAutoJoinGroup
        },
    ]
}

/// The calls that the options stand for, in order.
pub open spec fn calls_of(options: ConsumerGroupOptions) -> Seq<BuilderCall> {
    leading_calls_of(options) + call_if(options.polling_strategy, BuilderCall::PollingStrategy)
        + match options.batch_length {
        Some(length) => call_if(true, BuilderCall::BatchLength(length)),
        None => Seq::empty(),
    } + call_if(options.auto_commit, BuilderCall::AutoCommit) + call_if(
        true,
        match options.poll_interval {
            Some(micros) => BuilderCall::PollInterval(micros),
            None => BuilderCall::WithoutPollInterval,
        },
    ) + match options.polling_retry_interval {
        Some(micros) => call_if(true, BuilderCall::PollingRetryInterval(micros)),
        None => Seq::empty(),
    } + match (options.init_retries, options.init_retry_interval) {
        (Some(retries), Some(micros)) => call_if(true, BuilderCall::InitRetries(retries, micros)),
        _ => Seq::empty(),
    } + call_if(options.allow_replay, BuilderCall::AllowReplay)
}

/// Why the options are refused.
pub open spec fn options_error(options: ConsumerGroupOptions) -> Option<OptionsError> {
    if options.init_retries is Some && options.init_retry_interval is None {
        Some(OptionsError::MissingInitRetryInterval)
    } else if options.init_retries is None && options.init_retry_interval is Some {
        Some(OptionsError::MissingInitRetries)
    } else {
        None
    }
}

/// What a set of options asks of the consumer builder, in order.
pub fn consumer_group_calls(options: &ConsumerGroupOptions) -> (calls: Result<
    Vec<BuilderCall>,
    OptionsError,
>)
    ensures
        match options_error(*options) {
            Some(error) => calls matches Err(found) && found == error,
            None => calls matches Ok(listed) && listed@ == calls_of(*options),
        },
{
    let mut calls: Vec<BuilderCall> = leading_calls(options);
    push_if(&mut calls, options.polling_strategy, BuilderCall::PollingStrategy);
    if let Some(batch_length) = options.batch_length {
        push_if(&mut calls, true, BuilderCall::BatchLength(batch_length));
    }
    push_if(&mut calls, options.auto_commit, BuilderCall::AutoCommit);
    let poll_interval = match options.poll_interval {
        Some(micros) => BuilderCall::PollInterval(micros),
        None => BuilderCall::WithoutPollInterval,
    };
    push_if(&mut calls, true, poll_interval);
    if let Some(micros) = options.polling_retry_interval {
        push_if(&mut calls, true, BuilderCall::PollingRetryInterval(micros));
    }
    match (options.init_retries, options.init_retry_interval) {
        (Some(_), None) => return Err(OptionsError::MissingInitRetryInterval),
        (None, Some(_)) => return Err(OptionsError::MissingInitRetries),
        (Some(retries), Some(micros)) => {
            push_if(&mut calls, true, BuilderCall::InitRetries(retries, micros));
        },
        (None, None) => {},
    }
    push_if(&mut calls, options.allow_replay, BuilderCall::AllowReplay);
    Ok(calls)
}

/// The calls that every consumer of a group makes.
fn leading_calls(options: &ConsumerGroupOptions) -> (calls: Vec<BuilderCall>)
    ensures
        calls@ == leading_calls_of(*options),
{
    let create = if options.create_consumer_group_if_not_exists {
        BuilderCall::CreateGroupIfNotExists
    } else {
        BuilderCall::DoNotCreateGroupIfNotExists
    };
    let join = if options.auto_join_consumer_group {
        BuilderCall::AutoJoinGroup
    } else {
        BuilderCall::DoNotAutoJoinGroup
    };
    let mut calls: Vec<BuilderCall> = Vec::new();
    calls.push(BuilderCall::WithoutEncryptor);
    calls.push(BuilderCall::Partition(options.partition_id));
    calls.push(create);
    calls.push(join);
    assert(calls@ =~= leading_calls_of(*options));
    calls
}

fn push_if(calls: &mut Vec<BuilderCall>, wanted: bool, call: BuilderCall)
    ensures
        final(calls)@ == old(calls)@ + call_if(wanted, call),
{
    let ghost before = calls@;
    if wanted {
        calls.push(call);
    }
    assert(calls@ =~= before + call_if(wanted, call));
}

/// A polled message, and the partition that it was polled from.
#[derive(Debug)]
pub struct ReceivedMessage<M> {
    pub inner: M,
    pub partition_id: u32,
}

/// Marks each polled message with its partition.
pub fn with_partition<M>(messages: Vec<M>, partition_id: u32) -> (received: Vec<
    ReceivedMessage<M>,
>)
    ensures
        received@ == messages@.map_values(
            |message: M| ReceivedMessage { inner: message, partition_id },
        ),
{
    let ghost mark = |message: M| ReceivedMessage { inner: message, partition_id };
    let ghost all = messages@;
    let mut received: Vec<ReceivedMessage<M>> = Vec::new();
    for message in walk: messages
        invariant
            mark == (|message: M| ReceivedMessage { inner: message, partition_id }),
            walk.seq() == all,
            received@ == all.take(walk.index() as int).map_values(mark),
    {
        let ghost before = received@;
        received.push(ReceivedMessage { inner: message, partition_id });
        assert(received@ =~= before.push(mark(message)));
    }
    assert(received@ =~= all.map_values(mark));
    received
}

/// Each option decides its own setting, and what is not given is left to its
/// default.
pub proof fn law_setting_follows_its_own_option(
    compression_named: bool,
    replication_factor: Option<u8>,
    message_expiry: Option<u64>,
    max_topic_size: Option<u64>,
)
    ensures
        ({
            let settings = settings_of(
                compression_named,
                replication_factor,
                message_expiry,
                max_topic_size,
            );
            &&& settings.compression is Named <==> compression_named
            &&& settings.replication_factor == replication_factor
            &&& match settings.expiry {
                ExpiryChoice::Duration(micros) => message_expiry == Some(micros),
                ExpiryChoice::ServerDefault => message_expiry is None,
            }
            &&& match settings.max_size {
                SizeChoice::UpTo(bytes) => max_topic_size == Some(bytes),
                SizeChoice::ServerDefault => max_topic_size is None,
            }
        }),
{
}

/// Whether the options ask for a call.
pub open spec fn asks_for(options: ConsumerGroupOptions, call: BuilderCall) -> bool {
    match call {
        BuilderCall::WithoutEncryptor => true,
        BuilderCall::Partition(partition_id) => options.partition_id == partition_id,
        BuilderCall::CreateGroupIfNotExists => options.create_consumer_group_if_not_exists,
        BuilderCall::DoNotCreateGroupIfNotExists => !options.create_consumer_group_if_not_exists,
        BuilderCall::AutoJoinGroup => options.auto_join_consumer_group,
        BuilderCall::DoNotAutoJoinGroup => !options.auto_join_consumer_group,
        BuilderCall::PollingStrategy => options.polling_strategy,
        BuilderCall::BatchLength(length) => options.batch_length == Some(length),
        BuilderCall::AutoCommit => options.auto_commit,
        BuilderCall::PollInterval(micros) => options.poll_interval == Some(micros),
        BuilderCall::WithoutPollInterval => options.poll_interval is None,
        BuilderCall::PollingRetryInterval(micros) => options.polling_retry_interval == Some(
            micros,
        ),
        BuilderCall::InitRetries(retries, micros) => options.init_retries == Some(retries)
            && options.init_retry_interval == Some(micros),
        BuilderCall::AllowReplay => options.allow_replay,
    }
}

/// The place of a call among the calls of the builder.
pub open spec fn rank(call: BuilderCall) -> int {
    match call {
        BuilderCall::WithoutEncryptor => 0,
        BuilderCall::Partition(_) => 1,
        BuilderCall::CreateGroupIfNotExists => 2,
        BuilderCall::DoNotCreateGroupIfNotExists => 2,
        BuilderCall::AutoJoinGroup => 3,
        BuilderCall::DoNotAutoJoinGroup => 3,
        BuilderCall::PollingStrategy => 4,
        BuilderCall::BatchLength(_) => 5,
        BuilderCall::AutoCommit => 6,
        BuilderCall::PollInterval(_) => 7,
        BuilderCall::WithoutPollInterval => 7,
        BuilderCall::PollingRetryInterval(_) => 8,
        BuilderCall::InitRetries(_, _) => 9,
        BuilderCall::AllowReplay => 10,
    }
}

/// The calls of the options, one piece for each place in the builder's order.
spec fn pieces_of(options: ConsumerGroupOptions) -> Seq<Seq<BuilderCall>> {
    seq![
        call_if(options.polling_strategy, BuilderCall::PollingStrategy),
        match options.batch_length {
            Some(length) => call_if(true, BuilderCall::BatchLength(length)),
            None => Seq::empty(),
        },
        call_if(options.auto_commit, BuilderCall::AutoCommit),
        call_if(
            true,
            match options.poll_interval {
                Some(micros) => BuilderCall::PollInterval(micros),
                None => BuilderCall::WithoutPollInterval,
            },
        ),
        match options.polling_retry_interval {
            Some(micros) => call_if(true, BuilderCall::PollingRetryInterval(micros)),
            None => Seq::empty(),
        },
        match (options.init_retries, options.init_retry_interval) {
            (Some(retries), Some(micros)) => call_if(
                true,
                BuilderCall::InitRetries(retries, micros),
            ),
            _ => Seq::empty(),
        },
        call_if(options.allow_replay, BuilderCall::AllowReplay),
    ]
}

/// `front` and the first `n` of `pieces`, one behind the other.
spec fn joined(front: Seq<BuilderCall>, pieces: Seq<Seq<BuilderCall>>, n: nat) -> Seq<BuilderCall>
    decreases n,
{
    if n == 0 {
        front
    } else {
        joined(front, pieces, (n - 1) as nat) + pieces[n - 1]
    }
}

/// Whether the calls stand in the builder's order, between two ranks.
spec fn ranked(calls: Seq<BuilderCall>, low: int, high: int) -> bool {
    &&& forall|i: int| 0 <= i < calls.len() ==> low <= rank(#[trigger] calls[i]) < high
    &&& forall|i: int, j: int|
        0 <= i < j < calls.len() ==> rank(#[trigger] calls[i]) < rank(#[trigger] calls[j])
}

/// Each piece holds the call that the options ask for at its place, where they
/// ask for one.
proof fn lemma_pieces(options: ConsumerGroupOptions, k: int, call: BuilderCall)
    requires
        0 <= k < 7,
    ensures
        pieces_of(options).len() == 7,
        pieces_of(options)[k].len() <= 1,
        pieces_of(options)[k].len() == 1 ==> rank(pieces_of(options)[k][0]) == k + 4,
        pieces_of(options)[k].contains(call) <==> rank(call) == k + 4 && asks_for(options, call),
{
    let piece = pieces_of(options)[k];
    if piece.len() == 1 {
        assert(piece.contains(piece[0]));
    }
    assert(piece.contains(call) <==> piece.len() == 1 && piece[0] == call);
}

proof fn lemma_joined(options: ConsumerGroupOptions, n: nat, call: BuilderCall)
    requires
        n <= 7,
    ensures
        ranked(joined(leading_calls_of(options), pieces_of(options), n), 0, n + 4int),
        joined(leading_calls_of(options), pieces_of(options), n).contains(call) <==> rank(call) < n
            + 4 && asks_for(options, call),
    decreases n,
{
    let lead = leading_calls_of(options);
    let pieces = pieces_of(options);
    let all = joined(lead, pieces, n);
    if n == 0 {
        assert(lead.len() == 4);
        if lead.contains(call) {
            let at = choose|at: int| 0 <= at < lead.len() && lead[at] == call;
            assert(at == 0 || at == 1 || at == 2 || at == 3);
        }
        if rank(call) < 4 && asks_for(options, call) {
            assert(lead[rank(call)] == call);
        }
    } else {
        lemma_joined(options, (n - 1) as nat, call);
        lemma_pieces(options, n - 1, call);
        let front = joined(lead, pieces, (n - 1) as nat);
        let behind = pieces[n - 1];
        assert(all == front + behind);
        assert forall|i: int| 0 <= i < all.len() implies 0 <= rank(#[trigger] all[i]) < n + 4 by {
            if i < front.len() {
                assert(all[i] == front[i]);
            } else {
                assert(all[i] == behind[0]);
            }
        }
        assert forall|i: int, j: int| 0 <= i < j < all.len() implies rank(#[trigger] all[i])
            < rank(#[trigger] all[j]) by {
            assert(all[i] == front[i]);
            if j < front.len() {
                assert(all[j] == front[j]);
            } else {
                assert(all[j] == behind[0]);
            }
        }
        if front.contains(call) {
            let at = choose|at: int| 0 <= at < front.len() && front[at] == call;
            assert(all[at] == call);
        }
        if behind.contains(call) {
            let at = choose|at: int| 0 <= at < behind.len() && behind[at] == call;
            assert(all[front.len() + at] == call);
        }
        if all.contains(call) {
            let at = choose|at: int| 0 <= at < all.len() && all[at] == call;
            if at < front.len() {
                assert(front[at] == call);
            } else {
                assert(behind[at - front.len()] == call);
            }
        }
    }
}

/// The builder gets every call that the options ask for, once, in the builder's
/// order, and no other. Options are refused exactly where the count of the
/// retries comes without their interval, or the interval without the count.
pub proof fn law_builder_gets_what_the_options_ask_for(
    options: ConsumerGroupOptions,
    call: BuilderCall,
    i: int,
    j: int,
)
    ensures
        calls_of(options).contains(call) <==> asks_for(options, call),
        0 <= i < j < calls_of(options).len() ==> rank(calls_of(options)[i]) < rank(
            calls_of(options)[j],
        ),
        options_error(options) == (match (options.init_retries, options.init_retry_interval) {
            (Some(_), None) => Some(OptionsError::MissingInitRetryInterval),
            (None, Some(_)) => Some(OptionsError::MissingInitRetries),
            _ => None,
        }),
{
    let lead = leading_calls_of(options);
    let pieces = pieces_of(options);
    assert(joined(lead, pieces, 7) == calls_of(options)) by {
        reveal_with_fuel(joined, 8);
    }
    lemma_joined(options, 7, call);
}

} // verus!
