//! Reads of partitions: polls, stored offsets and group assignments.
use crate::buffers::{bytes_from_vec, bytes_of};
use crate::codec::{le_bytes, push_le};
use crate::dispatch::serving::PartitionReadReply;
use crate::error::IggyError;
use crate::namespace::IggyNamespace;
use bytes::Bytes;
use vstd::prelude::*;

verus! {

/// How a request names a stream, a topic or a consumer.
#[derive(Debug, PartialEq, Eq)]
pub enum WireIdentifier {
    Numeric(u32),
    Named(String),
}

/// The consumer or the group that reads.
#[derive(Debug, PartialEq, Eq)]
pub struct WireConsumer {
    pub kind: u8,
    pub id: WireIdentifier,
}

/// From where on messages are polled.
#[derive(Debug, Clone, Copy, PartialEq, Eq, Structural)]
pub struct WirePollingStrategy {
    pub kind: u8,
    pub value: u64,
}

/// The fields of a poll that its resolution depends on.
#[derive(Debug, PartialEq, Eq)]
pub struct PollMessagesRequest {
    pub consumer: WireConsumer,
    pub partition_id: Option<u32>,
    pub strategy: WirePollingStrategy,
    pub count: u32,
    pub auto_commit: bool,
}

/// The fields of an offset read that its resolution depends on.
#[derive(Debug, PartialEq, Eq)]
pub struct GetConsumerOffsetRequest {
    pub consumer: WireConsumer,
    pub partition_id: Option<u32>,
}

/// From where on messages are polled.
#[derive(Debug, Clone, Copy, PartialEq, Eq, Structural)]
pub enum PollingKind {
    Offset,
    Timestamp,
    First,
    Last,
    Next,
}

/// From where on messages are polled.
#[derive(Debug, Clone, Copy, PartialEq, Eq, Structural)]
pub struct PollingStrategy {
    pub kind: PollingKind,
    pub value: u64,
}

/// What a poll asks of the partition.
#[derive(Debug, Clone, Copy, PartialEq, Eq, Structural)]
pub struct PollingArgs {
    pub strategy: PollingStrategy,
    pub count: u32,
    pub auto_commit: bool,
}

/// The consumer or the group under whose id a partition keeps an offset, and
/// the partition.
#[derive(Debug, Clone, Copy, PartialEq, Eq, Structural)]
pub enum PollingConsumer {
    Consumer(usize, usize),
    ConsumerGroup(usize, usize),
}

/// The code of a consumer on its own.
pub const KIND_CONSUMER: u8 = 1;

/// The strategy that a request names.
pub open spec fn strategy_of(strategy: WirePollingStrategy) -> Result<PollingStrategy, IggyError> {
    let value = strategy.value;
    match strategy.kind {
        1 => Ok(PollingStrategy { kind: PollingKind::Offset, value }),
        2 => Ok(PollingStrategy { kind: PollingKind::Timestamp, value }),
        3 => Ok(PollingStrategy { kind: PollingKind::First, value }),
        4 => Ok(PollingStrategy { kind: PollingKind::Last, value }),
        5 => Ok(PollingStrategy { kind: PollingKind::Next, value }),
        _ => Err(IggyError::InvalidCommand),
    }
}

/// The strategy that a request names.
pub fn polling_strategy_from_wire(strategy: &WirePollingStrategy) -> (mapped: Result<
    PollingStrategy,
    IggyError,
>)
    ensures
        mapped == strategy_of(*strategy),
{
    let kind: PollingKind = match strategy.kind {
        1 => PollingKind::Offset,
        2 => PollingKind::Timestamp,
        3 => PollingKind::First,
        4 => PollingKind::Last,
        5 => PollingKind::Next,
        _ => return Err(IggyError::InvalidCommand),
    };
    Ok(PollingStrategy { kind, value: strategy.value })
}

/// The number of a consumer: its own, or the hash of its name.
pub open spec fn consumer_number(id: WireIdentifier, name_hash: u32) -> usize {
    match id {
        WireIdentifier::Numeric(number) => number as usize,
        WireIdentifier::Named(_) => name_hash as usize,
    }
}

/// The consumer that a request names. `name_hash` is the hash of the
/// consumer's name, `group_kind` the code of a consumer group.
pub open spec fn consumer_of(
    consumer: WireConsumer,
    partition_id: u32,
    name_hash: u32,
    group_kind: u8,
) -> Result<PollingConsumer, IggyError> {
    let id = consumer_number(consumer.id, name_hash);
    if consumer.kind == KIND_CONSUMER {
        Ok(PollingConsumer::Consumer(id, partition_id as usize))
    } else if consumer.kind == group_kind {
        Ok(PollingConsumer::ConsumerGroup(id, partition_id as usize))
    } else {
        Err(IggyError::InvalidCommand)
    }
}

/// The consumer that a request names.
pub fn polling_consumer_from_wire(
    consumer: &WireConsumer,
    partition_id: u32,
    name_hash: u32,
    group_kind: u8,
) -> (mapped: Result<PollingConsumer, IggyError>)
    ensures
        mapped == consumer_of(*consumer, partition_id, name_hash, group_kind),
{
    let id: usize = match &consumer.id {
        WireIdentifier::Numeric(number) => *number as usize,
        WireIdentifier::Named(_) => name_hash as usize,
    };
    if consumer.kind == KIND_CONSUMER {
        Ok(PollingConsumer::Consumer(id, partition_id as usize))
    } else if consumer.kind == group_kind {
        Ok(PollingConsumer::ConsumerGroup(id, partition_id as usize))
    } else {
        Err(IggyError::InvalidCommand)
    }
}

/// The partition that a read names; the first where it names none.
pub open spec fn named_partition(partition_id: Option<u32>) -> u32 {
    match partition_id {
        Some(id) => id,
        None => 0,
    }
}

/// The partition that a read names; the first where it names none.
pub fn requested_partition(partition_id: Option<u32>) -> (id: u32)
    ensures
        id == named_partition(partition_id),
{
    match partition_id {
        Some(id) => id,
        None => 0,
    }
}

/// What the metadata says of a read: the number of the group that it names,
/// where it may be used, the namespace of its partition, and the hash of its
/// consumer's name.
#[derive(Debug, Clone, Copy)]
pub struct ReadLookups {
    /// For a poll: the group's id, where the client owns the partition in that
    /// group and is not about to lose it. For an offset read: the group's id.
    pub group_id: Option<u64>,
    /// The namespace of the partition that the read names.
    pub namespace: Result<IggyNamespace, IggyError>,
    pub name_hash: u32,
    /// The code of a consumer group.
    pub group_kind: u8,
}

/// A poll as its partition's shard gets it.
pub type DecodedPollRequest = (IggyNamespace, u32, PollingConsumer, PollingArgs);

/// The poll that a request asks for. A group member has to name the partition
/// and to own it.
pub open spec fn poll_of(
    wire: PollMessagesRequest,
    client_id: u128,
    lookups: ReadLookups,
) -> Result<DecodedPollRequest, IggyError> {
    match strategy_of(wire.strategy) {
        Err(error) => Err(error),
        Ok(strategy) => {
            let args = PollingArgs { strategy, count: wire.count, auto_commit: wire.auto_commit };
            if wire.consumer.kind == lookups.group_kind {
                match (wire.partition_id, lookups.group_id, lookups.namespace) {
                    (None, _, _) => Err(IggyError::InvalidIdentifier),
                    (Some(partition_id), None, _) => Err(
                        IggyError::ConsumerGroupPartitionNotOwned(client_id as u32, partition_id),
                    ),
                    (Some(_), Some(_), Err(error)) => Err(error),
                    (Some(partition_id), Some(group_id), Ok(namespace)) => Ok(
                        (
                            namespace,
                            partition_id,
                            PollingConsumer::ConsumerGroup(
                                group_id as usize,
                                partition_id as usize,
                            ),
                            args,
                        ),
                    ),
                }
            } else {
                let partition_id = named_partition(wire.partition_id);
                match (
                    lookups.namespace,
                    consumer_of(
                        wire.consumer,
                        partition_id,
                        lookups.name_hash,
                        lookups.group_kind,
                    ),
                ) {
                    (Err(error), _) => Err(error),
                    (Ok(_), Err(error)) => Err(error),
                    (Ok(namespace), Ok(consumer)) => Ok((namespace, partition_id, consumer, args)),
                }
            }
        },
    }
}

/// Resolves a poll.
pub fn resolve_poll_request(
    wire: &PollMessagesRequest,
    client_id: u128,
    lookups: &ReadLookups,
) -> (poll: Result<DecodedPollRequest, IggyError>)
    ensures
        poll == poll_of(*wire, client_id, *lookups),
{
    let strategy: PollingStrategy = polling_strategy_from_wire(&wire.strategy)?;
    let args = PollingArgs { strategy, count: wire.count, auto_commit: wire.auto_commit };
    if wire.consumer.kind == lookups.group_kind {
        let partition_id: u32 = match wire.partition_id {
            Some(id) => id,
            None => return Err(IggyError::InvalidIdentifier),
        };
        let group_id: u64 = match lookups.group_id {
            Some(id) => id,
            None => return Err(
                IggyError::ConsumerGroupPartitionNotOwned(
                    #[verifier::truncate]
                    (client_id as u32),
                    partition_id,
                ),
            ),
        };
        let namespace: IggyNamespace = lookups.namespace?;
        let consumer = PollingConsumer::ConsumerGroup(
            #[verifier::truncate]
            (group_id as usize),
            partition_id as usize,
        );
        return Ok((namespace, partition_id, consumer, args));
    }
    let partition_id: u32 = requested_partition(wire.partition_id);
    let namespace: IggyNamespace = lookups.namespace?;
    let consumer: PollingConsumer = polling_consumer_from_wire(
        &wire.consumer,
        partition_id,
        lookups.name_hash,
        lookups.group_kind,
    )?;
    Ok((namespace, partition_id, consumer, args))
}

/// The offset read that a request asks for. Anyone may read the offset of a
/// group, member or not.
pub open spec fn offset_read_of(
    wire: GetConsumerOffsetRequest,
    lookups: ReadLookups,
) -> Result<(IggyNamespace, u32, PollingConsumer), IggyError> {
    let partition_id = named_partition(wire.partition_id);
    match lookups.namespace {
        Err(error) => Err(error),
        Ok(namespace) => if wire.consumer.kind == lookups.group_kind {
            match lookups.group_id {
                None => Err(IggyError::InvalidIdentifier),
                Some(group_id) => Ok(
                    (
                        namespace,
                        partition_id,
                        PollingConsumer::ConsumerGroup(group_id as usize, partition_id as usize),
                    ),
                ),
            }
        } else {
            match consumer_of(
                wire.consumer,
                partition_id,
                lookups.name_hash,
                lookups.group_kind,
            ) {
                Err(error) => Err(error),
                Ok(consumer) => Ok((namespace, partition_id, consumer)),
            }
        },
    }
}

/// Resolves an offset read.
pub fn resolve_consumer_offset_request(
    wire: &GetConsumerOffsetRequest,
    lookups: &ReadLookups,
) -> (read: Result<(IggyNamespace, u32, PollingConsumer), IggyError>)
    ensures
        read == offset_read_of(*wire, *lookups),
{
    let partition_id: u32 = requested_partition(wire.partition_id);
    let namespace: IggyNamespace = lookups.namespace?;
    let consumer: PollingConsumer = if wire.consumer.kind == lookups.group_kind {
        match lookups.group_id {
            Some(group_id) => PollingConsumer::ConsumerGroup(
                #[verifier::truncate]
                (group_id as usize),
                partition_id as usize,
            ),
            None => return Err(IggyError::InvalidIdentifier),
        }
    } else {
        polling_consumer_from_wire(
            &wire.consumer,
            partition_id,
            lookups.name_hash,
            lookups.group_kind,
        )?
    };
    Ok((namespace, partition_id, consumer))
}

/// The bytes of a poll's reply without messages: the partition, the current
/// offset and the count.
pub open spec fn empty_poll_bytes(partition_id: u32) -> Seq<u8> {
    le_bytes(partition_id as nat, 4) + le_bytes(0, 8) + le_bytes(0, 4)
}

/// A poll's reply without messages. The client cannot decode a shorter one.
pub fn empty_polled_messages_body(partition_id: u32) -> (body: Bytes)
    ensures
        bytes_of(body) == empty_poll_bytes(partition_id),
        bytes_of(body).len() == 16,
{
    let mut body: Vec<u8> = Vec::with_capacity(16);
    push_le(&mut body, partition_id as u128, 4);
    push_le(&mut body, 0, 8);
    push_le(&mut body, 0, 4);
    proof {
        crate::codec::lemma_le_bytes_len(partition_id as nat, 4);
        crate::codec::lemma_le_bytes_len(0, 8);
        crate::codec::lemma_le_bytes_len(0, 4);
        assert(body@ =~= empty_poll_bytes(partition_id));
    }
    bytes_from_vec(body)
}

/// What a poll waits for; the partition goes along once it is known.
#[derive(Debug, Clone, Copy, PartialEq, Eq, Structural)]
pub enum PollStage {
    Decode,
    Authorize,
    Resolve,
    Read(u32),
    Encode(u32),
    Over,
}

/// What came of the step that a poll waited for.
#[derive(Debug, Clone, Copy)]
pub enum PollEvent {
    /// Whether the body could be decoded.
    Decoded(bool),
    /// The status of a refusal, where the user may not poll the topic.
    Authorized(Option<u32>),
    Resolved(Result<DecodedPollRequest, IggyError>),
    /// What the partition's shard replied, where it replied.
    ReadDone(Option<PartitionReadReply>),
    /// Whether the messages could be encoded for the client.
    Encoded(bool),
}

/// What to do next with a poll.
#[derive(Debug, Clone, Copy, PartialEq, Eq, Structural)]
pub enum PollStep {
    Authorize,
    Resolve,
    Read(IggyNamespace, PollingConsumer, PollingArgs),
    /// Encode the messages for the client.
    Encode { partition_id: u32, current_offset: u64 },
    SendMessages,
    /// Answer with no messages, under this partition.
    ReplyEmptyPoll(u32),
    /// Answer with the status and an empty body.
    Deny(u32),
}

/// Whether `event` is what `stage` waits for.
pub open spec fn poll_expects(stage: PollStage, event: PollEvent) -> bool {
    match stage {
        PollStage::Decode => event is Decoded,
        PollStage::Authorize => event is Authorized,
        PollStage::Resolve => event is Resolved,
        PollStage::Read(_) => event is ReadDone,
        PollStage::Encode(_) => event is Encoded,
        PollStage::Over => false,
    }
}

/// The partition under which a poll that cannot be resolved is answered. A
/// client whose assignment is out of date is told to ask for it again; it
/// would take no messages for the end of the partition.
pub open spec fn rejected_partition(error: IggyError, resync_sentinel: u32) -> u32 {
    if error is ConsumerGroupPartitionNotOwned {
        resync_sentinel
    } else {
        0
    }
}

/// What follows on `event`.
pub open spec fn poll_next(stage: PollStage, event: PollEvent, resync_sentinel: u32) -> (
    PollStage,
    PollStep,
) {
    match (stage, event) {
        (PollStage::Decode, PollEvent::Decoded(true)) => (
            PollStage::Authorize,
            PollStep::Authorize,
        ),
        (PollStage::Authorize, PollEvent::Authorized(None)) => (
            PollStage::Resolve,
            PollStep::Resolve,
        ),
        (PollStage::Authorize, PollEvent::Authorized(Some(status))) => (
            PollStage::Over,
            PollStep::Deny(status),
        ),
        (
            PollStage::Resolve,
            PollEvent::Resolved(Ok((namespace, partition_id, consumer, args))),
        ) => (PollStage::Read(partition_id), PollStep::Read(namespace, consumer, args)),
        (PollStage::Resolve, PollEvent::Resolved(Err(error))) => (
            PollStage::Over,
            PollStep::ReplyEmptyPoll(rejected_partition(error, resync_sentinel)),
        ),
        (
            PollStage::Read(partition_id),
            PollEvent::ReadDone(Some(PartitionReadReply::Poll { current_offset })),
        ) => (PollStage::Encode(partition_id), PollStep::Encode { partition_id, current_offset }),
        (PollStage::Read(partition_id), _) => (
            PollStage::Over,
            PollStep::ReplyEmptyPoll(partition_id),
        ),
        (PollStage::Encode(_), PollEvent::Encoded(true)) => (
            PollStage::Over,
            PollStep::SendMessages,
        ),
        (PollStage::Encode(partition_id), _) => (
            PollStage::Over,
            PollStep::ReplyEmptyPoll(partition_id),
        ),
        _ => (PollStage::Over, PollStep::ReplyEmptyPoll(0)),
    }
}

/// Decides what follows on `event`.
pub fn on_poll(stage: PollStage, event: PollEvent, resync_sentinel: u32) -> (next: (
    PollStage,
    PollStep,
))
    requires
        poll_expects(stage, event),
    ensures
        next == poll_next(stage, event, resync_sentinel),
{
    match stage {
        PollStage::Decode => match event {
            PollEvent::Decoded(true) => (PollStage::Authorize, PollStep::Authorize),
            _ => (PollStage::Over, PollStep::ReplyEmptyPoll(0)),
        },
        PollStage::Authorize => match event {
            PollEvent::Authorized(Some(status)) => (PollStage::Over, PollStep::Deny(status)),
            _ => (PollStage::Resolve, PollStep::Resolve),
        },
        PollStage::Resolve => match event {
            PollEvent::Resolved(Ok((namespace, partition_id, consumer, args))) => (
                PollStage::Read(partition_id),
                PollStep::Read(namespace, consumer, args),
            ),
            PollEvent::Resolved(Err(IggyError::ConsumerGroupPartitionNotOwned(_, _))) => (
                PollStage::Over,
                PollStep::ReplyEmptyPoll(resync_sentinel),
            ),
            _ => (PollStage::Over, PollStep::ReplyEmptyPoll(0)),
        },
        PollStage::Read(partition_id) => match event {
            PollEvent::ReadDone(Some(PartitionReadReply::Poll { current_offset })) => (
                PollStage::Encode(partition_id),
                PollStep::Encode { partition_id, current_offset },
            ),
            _ => (PollStage::Over, PollStep::ReplyEmptyPoll(partition_id)),
        },
        PollStage::Encode(partition_id) => match event {
            PollEvent::Encoded(true) => (PollStage::Over, PollStep::SendMessages),
            _ => (PollStage::Over, PollStep::ReplyEmptyPoll(partition_id)),
        },
        PollStage::Over => (PollStage::Over, PollStep::ReplyEmptyPoll(0)),
    }
}

/// How a poll ends, given what comes of each step.
pub open spec fn poll_outcome(
    decoded: bool,
    authorized: Option<u32>,
    resolved: Result<DecodedPollRequest, IggyError>,
    read: Option<PartitionReadReply>,
    encoded: bool,
    resync_sentinel: u32,
) -> PollStep {
    if !decoded {
        PollStep::ReplyEmptyPoll(0)
    } else if authorized is Some {
        PollStep::Deny(authorized->0)
    } else {
        match resolved {
            Err(error) => PollStep::ReplyEmptyPoll(rejected_partition(error, resync_sentinel)),
            Ok((_, partition_id, _, _)) => if read is Some && read->0 is Poll && encoded {
                PollStep::SendMessages
            } else {
                PollStep::ReplyEmptyPoll(partition_id)
            },
        }
    }
}

/// Feeding the steps' results in order, as far as the poll asks for them, ends
/// as the outcome says: every poll is answered, and no partition is read for a
/// user who may not poll it.
pub proof fn law_every_poll_is_answered(
    decoded: bool,
    authorized: Option<u32>,
    resolved: Result<DecodedPollRequest, IggyError>,
    read: Option<PartitionReadReply>,
    encoded: bool,
    resync_sentinel: u32,
)
    ensures
        ({
            let next = |at: (PollStage, PollStep), event: PollEvent|
                if at.0 is Over {
                    at
                } else {
                    poll_next(at.0, event, resync_sentinel)
                };
            let first = poll_next(PollStage::Decode, PollEvent::Decoded(decoded), resync_sentinel);
            let second = next(first, PollEvent::Authorized(authorized));
            let third = next(second, PollEvent::Resolved(resolved));
            let fourth = next(third, PollEvent::ReadDone(read));
            let last = next(fourth, PollEvent::Encoded(encoded));
            &&& last.0 is Over
            &&& last.1 == poll_outcome(
                decoded,
                authorized,
                resolved,
                read,
                encoded,
                resync_sentinel,
            )
            &&& third.1 is Read <==> decoded && authorized is None && resolved is Ok
        }),
{
}

/// What an offset read waits for; the partition goes along once it is known.
#[derive(Debug, Clone, Copy, PartialEq, Eq, Structural)]
pub enum OffsetStage {
    Decode,
    Authorize,
    Resolve,
    Read(u32),
    Over,
}

/// An offset read as its partition's shard gets it.
pub type DecodedOffsetRead = (IggyNamespace, u32, PollingConsumer);

/// What came of the step that an offset read waited for.
#[derive(Debug, Clone, Copy)]
pub enum OffsetEvent {
    /// Whether the body could be decoded.
    Decoded(bool),
    /// The status of a refusal, where the user may not read the offset.
    Authorized(Option<u32>),
    Resolved(Result<DecodedOffsetRead, IggyError>),
    /// What the partition's shard replied, where it replied.
    ReadDone(Option<PartitionReadReply>),
}

/// What to do next with an offset read.
#[derive(Debug, Clone, Copy, PartialEq, Eq, Structural)]
pub enum OffsetStep {
    Authorize,
    Resolve,
    Read(IggyNamespace, PollingConsumer),
    SendOffset { partition_id: u32, current_offset: u64, stored_offset: u64 },
    /// Answer with an empty body: no offset is stored.
    ReplyEmpty,
    /// Answer with the status and an empty body.
    Deny(u32),
}

/// Whether `event` is what `stage` waits for.
pub open spec fn offset_expects(stage: OffsetStage, event: OffsetEvent) -> bool {
    match stage {
        OffsetStage::Decode => event is Decoded,
        OffsetStage::Authorize => event is Authorized,
        OffsetStage::Resolve => event is Resolved,
        OffsetStage::Read(_) => event is ReadDone,
        OffsetStage::Over => false,
    }
}

/// What follows on `event`.
pub open spec fn offset_next(stage: OffsetStage, event: OffsetEvent) -> (OffsetStage, OffsetStep) {
    match (stage, event) {
        (OffsetStage::Decode, OffsetEvent::Decoded(true)) => (
            OffsetStage::Authorize,
            OffsetStep::Authorize,
        ),
        (OffsetStage::Authorize, OffsetEvent::Authorized(None)) => (
            OffsetStage::Resolve,
            OffsetStep::Resolve,
        ),
        (OffsetStage::Authorize, OffsetEvent::Authorized(Some(status))) => (
            OffsetStage::Over,
            OffsetStep::Deny(status),
        ),
        (OffsetStage::Resolve, OffsetEvent::Resolved(Ok((namespace, partition_id, consumer)))) => (
            OffsetStage::Read(partition_id),
            OffsetStep::Read(namespace, consumer),
        ),
        (
            OffsetStage::Read(partition_id),
            OffsetEvent::ReadDone(
                Some(
                    PartitionReadReply::ConsumerOffset {
                        stored: Some(stored_offset),
                        current_offset,
                    },
                ),
            ),
        ) => (
            OffsetStage::Over,
            OffsetStep::SendOffset { partition_id, current_offset, stored_offset },
        ),
        _ => (OffsetStage::Over, OffsetStep::ReplyEmpty),
    }
}

/// Decides what follows on `event`.
pub fn on_offset_read(stage: OffsetStage, event: OffsetEvent) -> (next: (OffsetStage, OffsetStep))
    requires
        offset_expects(stage, event),
    ensures
        next == offset_next(stage, event),
{
    match stage {
        OffsetStage::Decode => match event {
            OffsetEvent::Decoded(true) => (OffsetStage::Authorize, OffsetStep::Authorize),
            _ => (OffsetStage::Over, OffsetStep::ReplyEmpty),
        },
        OffsetStage::Authorize => match event {
            OffsetEvent::Authorized(Some(status)) => (OffsetStage::Over, OffsetStep::Deny(status)),
            _ => (OffsetStage::Resolve, OffsetStep::Resolve),
        },
        OffsetStage::Resolve => match event {
            OffsetEvent::Resolved(Ok((namespace, partition_id, consumer))) => (
                OffsetStage::Read(partition_id),
                OffsetStep::Read(namespace, consumer),
            ),
            _ => (OffsetStage::Over, OffsetStep::ReplyEmpty),
        },
        OffsetStage::Read(partition_id) => match event {
            OffsetEvent::ReadDone(
                Some(
                    PartitionReadReply::ConsumerOffset {
                        stored: Some(stored_offset),
                        current_offset,
                    },
                ),
            ) => (
                OffsetStage::Over,
                OffsetStep::SendOffset { partition_id, current_offset, stored_offset },
            ),
            _ => (OffsetStage::Over, OffsetStep::ReplyEmpty),
        },
        OffsetStage::Over => (OffsetStage::Over, OffsetStep::ReplyEmpty),
    }
}

/// Every step of an offset read leads on, or answers the client; no partition
/// is read for a user who may not read the offset.
pub proof fn law_every_offset_read_is_answered(
    decoded: bool,
    authorized: Option<u32>,
    resolved: Result<DecodedOffsetRead, IggyError>,
    read: Option<PartitionReadReply>,
)
    ensures
        ({
            let next = |at: (OffsetStage, OffsetStep), event: OffsetEvent|
                if at.0 is Over {
                    at
                } else {
                    offset_next(at.0, event)
                };
            let first = offset_next(OffsetStage::Decode, OffsetEvent::Decoded(decoded));
            let second = next(first, OffsetEvent::Authorized(authorized));
            let third = next(second, OffsetEvent::Resolved(resolved));
            let last = next(third, OffsetEvent::ReadDone(read));
            &&& last.0 is Over
            &&& third.1 is Read <==> decoded && authorized is None && resolved is Ok
            &&& last.1 == (if !decoded {
                OffsetStep::ReplyEmpty
            } else if authorized is Some {
                OffsetStep::Deny(authorized->0)
            } else {
                match (resolved, read) {
                    (
                        Ok((_, partition_id, _)),
                        Some(
                            PartitionReadReply::ConsumerOffset {
                                stored: Some(stored_offset),
                                current_offset,
                            },
                        ),
                    ) => OffsetStep::SendOffset { partition_id, current_offset, stored_offset },
                    _ => OffsetStep::ReplyEmpty,
                }
            })
        }),
{
}

/// A group poll of a partition that the client does not own, or does not name,
/// is refused; the refusal of one that it does not own asks it to get its
/// assignment again.
pub proof fn law_group_polls_are_fenced(
    wire: PollMessagesRequest,
    client_id: u128,
    lookups: ReadLookups,
    resync_sentinel: u32,
)
    requires
        wire.consumer.kind == lookups.group_kind,
        lookups.group_id is None || wire.partition_id is None,
    ensures
        poll_of(wire, client_id, lookups) is Err,
        strategy_of(wire.strategy) is Ok && wire.partition_id is Some ==> rejected_partition(
            poll_of(wire, client_id, lookups)->Err_0,
            resync_sentinel,
        ) == resync_sentinel,
{
}

/// A group's offset is read under the key under which its polls commit it.
pub proof fn law_group_offset_has_one_key(
    poll: PollMessagesRequest,
    read: GetConsumerOffsetRequest,
    client_id: u128,
    lookups: ReadLookups,
)
    requires
        poll.consumer.kind == lookups.group_kind,
        read.consumer.kind == lookups.group_kind,
        poll.partition_id == read.partition_id,
        poll_of(poll, client_id, lookups) is Ok,
    ensures
        offset_read_of(read, lookups) matches Ok((namespace, partition_id, consumer)) && {
            let (polled, polled_partition, poller, _) = poll_of(poll, client_id, lookups)->Ok_0;
            polled == namespace && polled_partition == partition_id && poller == consumer
        },
{
}

} // verus!
