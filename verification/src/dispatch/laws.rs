//! What each decision of the dispatcher comes to, told from what the client
//! asked and what was found.
use crate::codec::le_at;
use crate::dispatch::autocommit::{
    auto_commit_header_of, gate_of, store_request_of, AutoCommitApplied, PartitionStatus,
};
use crate::dispatch::owner::{
    forwarded_result, MetadataSubmitError, OwnerReply, METADATA_OWNER,
};
use crate::dispatch::partition::{
    dispatched_header, partition_next, PartitionEvent, PartitionStage, PartitionStep,
};
use crate::dispatch::queues::{
    after_abandon, after_enqueue, after_pop, next_request, QueueState,
};
use crate::dispatch::reads::{
    consumer_of, empty_poll_bytes, named_partition, offset_next, offset_read_of, poll_next,
    poll_of, rejected_partition, strategy_of, DecodedOffsetRead, DecodedPollRequest,
    GetConsumerOffsetRequest, OffsetEvent, OffsetStage, OffsetStep, PollEvent,
    PollMessagesRequest, PollStage, PollStep, PollingConsumer, ReadLookups,
    WireConsumer, WireIdentifier, WirePollingStrategy,
};
use crate::dispatch::replicated::{
    replicated_next, ReplicatedEvent, ReplicatedStage, ReplicatedStep,
};
use crate::dispatch::reply::{address_of, ReplyKind};
use crate::dispatch::routable::{
    routable_next, shows_partition, RoutableEvent, RoutableStage, RoutableStep,
    ATTEMPT_DELAY_MILLIS, MAX_ATTEMPTS,
};
use crate::dispatch::route::{
    bound_header, gate_for, gated_read, read_for, route_for, CommandCodes, GatedRead,
    NonReplicatedRead,
};
use crate::dispatch::segments::{
    after_resolution, delete_step, resolved_delete, truncate_header_of, truncate_of,
    DeleteSegmentsRequest, DeleteStep, Truncate,
};
use crate::dispatch::serving::{
    memberships_of, position_of_client, serving_of, snapshot_reply_of, snapshot_request_of,
    LookedUp, PartitionLookup, PartitionReadReply, ReadServing, SnapshotReply,
};
use crate::dispatch::sessions::{
    evicted_of, eviction_origin, login_next, logout_of, logout_step, CredentialCheck,
    EvictionContext, EvictionReason, LoginEvent, LoginRegisterError, LoginStage, LoginStep,
    LogoutStep, PrefixCheck, StaleConnection, DISCONNECT_LOGOUT_REQUEST_ID,
};
use crate::error::IggyError;
use crate::message::RequestHeader;
use crate::namespace::IggyNamespace;
use crate::sequences::lemma_filter_map_push;
use vstd::prelude::*;

verus! {

/// A polling strategy keeps its value, and its five codes stand for an offset,
/// a timestamp, the first, the last and the next message; any other code is
/// malformed.
pub proof fn law_strategy_is_named_by_its_code(wire: WirePollingStrategy)
    ensures
        strategy_of(wire) is Ok <==> 1 <= wire.kind <= 5,
        strategy_of(wire) matches Err(error) ==> error is InvalidCommand,
        strategy_of(wire) matches Ok(strategy) ==> {
            &&& strategy.value == wire.value
            &&& strategy.kind is Offset <==> wire.kind == 1
            &&& strategy.kind is Timestamp <==> wire.kind == 2
            &&& strategy.kind is First <==> wire.kind == 3
            &&& strategy.kind is Last <==> wire.kind == 4
            &&& strategy.kind is Next <==> wire.kind == 5
        },
{
}

/// The number under which a consumer keeps its offset, and the partition, are
/// those that the request names: a number as it is, a name by its hash.
pub proof fn law_consumer_is_who_asked(
    wire: WireConsumer,
    partition_id: u32,
    name_hash: u32,
    group_kind: u8,
)
    ensures
        consumer_of(wire, partition_id, name_hash, group_kind) is Ok <==> wire.kind == 1
            || wire.kind == group_kind,
        consumer_of(wire, partition_id, name_hash, group_kind) matches Err(error) ==> error
            is InvalidCommand,
        consumer_of(wire, partition_id, name_hash, group_kind) matches Ok(consumer) ==> {
            let number: u32 = match wire.id {
                WireIdentifier::Numeric(number) => number,
                WireIdentifier::Named(_) => name_hash,
            };
            match consumer {
                PollingConsumer::Consumer(id, partition) => wire.kind == 1 && id == number
                    && partition == partition_id,
                PollingConsumer::ConsumerGroup(id, partition) => wire.kind != 1 && id == number
                    && partition == partition_id,
            }
        },
{
}

/// A poll resolves exactly where its strategy is known, its partition exists,
/// and it comes from a consumer, or from a group member that names a partition
/// of its own. It then asks for the request's own count, auto-commit and
/// strategy, of the partition that the request names, under the consumer or
/// the group that the request names.
pub proof fn law_poll_asks_for_what_the_request_says(
    wire: PollMessagesRequest,
    client_id: u128,
    lookups: ReadLookups,
)
    ensures
        poll_of(wire, client_id, lookups) is Ok <==> {
            &&& 1 <= wire.strategy.kind <= 5
            &&& lookups.namespace is Ok
            &&& if wire.consumer.kind == lookups.group_kind {
                wire.partition_id is Some && lookups.group_id is Some
            } else {
                wire.consumer.kind == 1
            }
        },
        poll_of(wire, client_id, lookups) matches Ok((namespace, partition_id, consumer, args))
            ==> {
            &&& lookups.namespace == Ok::<_, IggyError>(namespace)
            &&& partition_id == (match wire.partition_id {
                Some(named) => named,
                None => 0,
            })
            &&& args.count == wire.count
            &&& args.auto_commit == wire.auto_commit
            &&& args.strategy.value == wire.strategy.value
            &&& args.strategy.kind is Offset <==> wire.strategy.kind == 1
            &&& args.strategy.kind is Timestamp <==> wire.strategy.kind == 2
            &&& args.strategy.kind is First <==> wire.strategy.kind == 3
            &&& args.strategy.kind is Last <==> wire.strategy.kind == 4
            &&& args.strategy.kind is Next <==> wire.strategy.kind == 5
            &&& match consumer {
                PollingConsumer::ConsumerGroup(id, partition) => {
                    &&& wire.consumer.kind == lookups.group_kind
                    &&& id == lookups.group_id->0 as usize
                    &&& partition == partition_id
                },
                PollingConsumer::Consumer(id, partition) => {
                    &&& wire.consumer.kind != lookups.group_kind
                    &&& id == (match wire.consumer.id {
                        WireIdentifier::Numeric(number) => number,
                        WireIdentifier::Named(_) => lookups.name_hash,
                    })
                    &&& partition == partition_id
                },
            }
        },
{
}

/// Why a poll does not resolve, in the order in which that is looked at: an
/// unknown strategy, a group member that names no partition or one that is not
/// its own, a partition that does not exist, a consumer of an unknown kind.
pub proof fn law_poll_is_refused_for_a_reason(
    wire: PollMessagesRequest,
    client_id: u128,
    lookups: ReadLookups,
)
    ensures
        ({
            let poll = poll_of(wire, client_id, lookups);
            let known = 1 <= wire.strategy.kind <= 5;
            let group = wire.consumer.kind == lookups.group_kind;
            &&& !known ==> poll == Err::<DecodedPollRequest, _>(IggyError::InvalidCommand)
            &&& known && group && wire.partition_id is None ==> poll == Err::<
                DecodedPollRequest,
                _,
            >(IggyError::InvalidIdentifier)
            &&& known && group && wire.partition_id is Some && lookups.group_id is None
                ==> poll == Err::<DecodedPollRequest, _>(
                IggyError::ConsumerGroupPartitionNotOwned(
                    (client_id % 0x1_0000_0000) as u32,
                    wire.partition_id->0,
                ),
            )
            &&& known && (!group || wire.partition_id is Some && lookups.group_id is Some)
                && lookups.namespace is Err ==> poll == Err::<DecodedPollRequest, _>(
                lookups.namespace->Err_0,
            )
            &&& known && !group && lookups.namespace is Ok && wire.consumer.kind != 1
                ==> poll == Err::<DecodedPollRequest, _>(IggyError::InvalidCommand)
        }),
{
    assert(client_id as u32 == (client_id % 0x1_0000_0000) as u32) by (bit_vector);
}

/// An offset read resolves exactly where its partition exists and it names a
/// consumer, or a group that exists. It reads the partition and the consumer or
/// group that the request names.
pub proof fn law_offset_read_asks_for_what_the_request_says(
    wire: GetConsumerOffsetRequest,
    lookups: ReadLookups,
)
    ensures
        offset_read_of(wire, lookups) is Ok <==> {
            &&& lookups.namespace is Ok
            &&& if wire.consumer.kind == lookups.group_kind {
                lookups.group_id is Some
            } else {
                wire.consumer.kind == 1
            }
        },
        lookups.namespace matches Err(error) ==> offset_read_of(wire, lookups) == Err::<
            DecodedOffsetRead,
            _,
        >(error),
        lookups.namespace is Ok && offset_read_of(wire, lookups) is Err ==> offset_read_of(
            wire,
            lookups,
        )->Err_0 == (if wire.consumer.kind == lookups.group_kind {
            IggyError::InvalidIdentifier
        } else {
            IggyError::InvalidCommand
        }),
        offset_read_of(wire, lookups) matches Ok((namespace, partition_id, consumer)) ==> {
            &&& lookups.namespace == Ok::<_, IggyError>(namespace)
            &&& partition_id == (match wire.partition_id {
                Some(named) => named,
                None => 0,
            })
            &&& match consumer {
                PollingConsumer::ConsumerGroup(id, partition) => {
                    &&& wire.consumer.kind == lookups.group_kind
                    &&& id == lookups.group_id->0 as usize
                    &&& partition == partition_id
                },
                PollingConsumer::Consumer(id, partition) => {
                    &&& wire.consumer.kind != lookups.group_kind
                    &&& id == (match wire.consumer.id {
                        WireIdentifier::Numeric(number) => number,
                        WireIdentifier::Named(_) => lookups.name_hash,
                    })
                    &&& partition == partition_id
                },
            }
        },
{
}

/// A read that names no partition means the first.
pub proof fn law_first_partition_is_the_default(partition_id: Option<u32>)
    ensures
        partition_id is None ==> named_partition(partition_id) == 0,
        partition_id matches Some(id) ==> named_partition(partition_id) == id,
{
}

/// A poll's reply without messages is sixteen bytes: the partition in four, and
/// zeros for the offset and the count.
pub proof fn law_empty_poll_names_its_partition(partition_id: u32)
    ensures
        empty_poll_bytes(partition_id).len() == 16,
        le_at(empty_poll_bytes(partition_id), 0, 4) == partition_id,
        forall|i: int| 4 <= i < 16 ==> empty_poll_bytes(partition_id)[i] == 0,
{
    crate::codec::lemma_le_limits();
    crate::codec::lemma_le_read_of_write(partition_id as nat, 4);
    crate::codec::lemma_le_zeros(8);
    crate::codec::lemma_le_zeros(4);
    let bytes = empty_poll_bytes(partition_id);
    assert(bytes.subrange(0, 4) =~= crate::codec::le_bytes(partition_id as nat, 4));
}

/// A poll goes from decoding over the rights to the resolution and the read of
/// the partition, in this order and with what was resolved, and ends with the
/// messages only where every step went well. A refusal of rights is answered
/// with its status; all else with an empty poll: under the partition where that
/// was resolved, under the sentinel where the client has to ask for its
/// assignment again, and under the first partition otherwise.
pub proof fn law_poll_is_answered_by_where_it_failed(
    decoded: bool,
    authorized: Option<u32>,
    resolved: Result<DecodedPollRequest, IggyError>,
    read: Option<PartitionReadReply>,
    encoded: bool,
    resync_sentinel: u32,
    partition_id: u32,
)
    ensures
        poll_next(PollStage::Decode, PollEvent::Decoded(decoded), resync_sentinel) == (
        if decoded {
            (PollStage::Authorize, PollStep::Authorize)
        } else {
            (PollStage::Over, PollStep::ReplyEmptyPoll(0))
        }),
        poll_next(PollStage::Authorize, PollEvent::Authorized(authorized), resync_sentinel) == (
        if authorized is None {
            (PollStage::Resolve, PollStep::Resolve)
        } else {
            (PollStage::Over, PollStep::Deny(authorized->0))
        }),
        ({
            let next = poll_next(
                PollStage::Resolve,
                PollEvent::Resolved(resolved),
                resync_sentinel,
            );
            &&& resolved matches Ok((namespace, named, consumer, args)) ==> next.0
                == PollStage::Read(named) && next.1 == PollStep::Read(namespace, consumer, args)
            &&& resolved matches Err(error) ==> next.0 is Over && next.1
                == PollStep::ReplyEmptyPoll(
                if error is ConsumerGroupPartitionNotOwned {
                    resync_sentinel
                } else {
                    0
                },
            )
        }),
        ({
            let next = poll_next(
                PollStage::Read(partition_id),
                PollEvent::ReadDone(read),
                resync_sentinel,
            );
            &&& read matches Some(PartitionReadReply::Poll { current_offset }) ==> next.0
                == PollStage::Encode(partition_id) && next.1 == (PollStep::Encode {
                partition_id,
                current_offset,
            })
            &&& !(read matches Some(reply) && reply is Poll) ==> next.0 is Over && next.1
                == PollStep::ReplyEmptyPoll(partition_id)
        }),
        poll_next(PollStage::Encode(partition_id), PollEvent::Encoded(encoded), resync_sentinel)
            == (PollStage::Over, if encoded {
            PollStep::SendMessages
        } else {
            PollStep::ReplyEmptyPoll(partition_id)
        }),
{
}

/// Only a client that does not own the partition is asked to get its assignment
/// again.
pub proof fn law_only_stale_assignments_are_resynced(error: IggyError, resync_sentinel: u32)
    ensures
        error is ConsumerGroupPartitionNotOwned ==> rejected_partition(error, resync_sentinel)
            == resync_sentinel,
        !(error is ConsumerGroupPartitionNotOwned) ==> rejected_partition(error, resync_sentinel)
            == 0,
{
}

/// An offset read goes the same way, and ends with the stored and the current
/// offset of the partition where one is stored, and with an empty reply where
/// none is or a step failed.
pub proof fn law_offset_read_is_answered_with_what_is_stored(
    decoded: bool,
    authorized: Option<u32>,
    resolved: Result<DecodedOffsetRead, IggyError>,
    read: Option<PartitionReadReply>,
    partition_id: u32,
)
    ensures
        offset_next(OffsetStage::Decode, OffsetEvent::Decoded(decoded)) == (if decoded {
            (OffsetStage::Authorize, OffsetStep::Authorize)
        } else {
            (OffsetStage::Over, OffsetStep::ReplyEmpty)
        }),
        offset_next(OffsetStage::Authorize, OffsetEvent::Authorized(authorized)) == (
        if authorized is None {
            (OffsetStage::Resolve, OffsetStep::Resolve)
        } else {
            (OffsetStage::Over, OffsetStep::Deny(authorized->0))
        }),
        ({
            let next = offset_next(OffsetStage::Resolve, OffsetEvent::Resolved(resolved));
            &&& resolved matches Ok((namespace, named, consumer)) ==> next.0 == OffsetStage::Read(
                named,
            ) && next.1 == OffsetStep::Read(namespace, consumer)
            &&& resolved is Err ==> next.0 is Over && next.1 is ReplyEmpty
        }),
        ({
            let next = offset_next(OffsetStage::Read(partition_id), OffsetEvent::ReadDone(read));
            &&& next.0 is Over
            &&& match read {
                Some(
                    PartitionReadReply::ConsumerOffset { stored: Some(stored), current_offset },
                ) => next.1 == (OffsetStep::SendOffset {
                    partition_id,
                    current_offset,
                    stored_offset: stored,
                }),
                _ => next.1 is ReplyEmpty,
            }
        }),
{
}

/// What a shard finds goes into its reply as it is, and what it does not hold
/// is reported as not found. Only a poll that has to read from disk gets a task
/// of its own.
pub proof fn law_shard_replies_with_what_it_found(found: PartitionLookup)
    ensures
        match found {
            PartitionLookup::Poll(plan) => {
                &&& plan is None ==> serving_of(found) == ReadServing::Reply(
                    PartitionReadReply::NotFound,
                )
                &&& serving_of(found) is SpawnIo <==> plan == Some(true)
                &&& serving_of(found) is ReplyResident <==> plan == Some(false)
            },
            PartitionLookup::ConsumerOffset(offsets) => match serving_of(found) {
                ReadServing::Reply(PartitionReadReply::ConsumerOffset { stored, current_offset })
                    => offsets == Some((stored, current_offset)),
                other => offsets is None && other == ReadServing::Reply(
                    PartitionReadReply::NotFound,
                ),
            },
            PartitionLookup::GroupOffsetState(offsets) => match serving_of(found) {
                ReadServing::Reply(PartitionReadReply::GroupOffsetState { last_polled, committed })
                    => offsets == Some((last_polled, committed)),
                other => offsets is None && other == ReadServing::Reply(
                    PartitionReadReply::NotFound,
                ),
            },
            PartitionLookup::ClearGroupLastPolled(cleared) => match serving_of(found) {
                ReadServing::Reply(PartitionReadReply::Ack) => cleared is Some,
                other => cleared is None && other == ReadServing::Reply(
                    PartitionReadReply::NotFound,
                ),
            },
            PartitionLookup::SegmentDeleteOffset(reach) => match serving_of(found) {
                ReadServing::Reply(
                    PartitionReadReply::SegmentDeleteOffset { up_to_offset, lagging },
                ) => reach == Some((up_to_offset, lagging)),
                other => reach is None && other == ReadServing::Reply(
                    PartitionReadReply::NotFound,
                ),
            },
        },
{
}

/// A client is found by the low 32 bits of its transport id: the first one that
/// has them, and none where nobody has.
pub proof fn law_client_is_found_by_its_low_bits(client_ids: Seq<u128>, id: u32)
    ensures
        match position_of_client(client_ids, id) {
            Some(position) => {
                &&& 0 <= position < client_ids.len()
                &&& client_ids[position] % 0x1_0000_0000 == id
                &&& forall|j: int|
                    0 <= j < position ==> #[trigger] client_ids[j] % 0x1_0000_0000 != id
            },
            None => forall|j: int|
                0 <= j < client_ids.len() ==> #[trigger] client_ids[j] % 0x1_0000_0000 != id,
        },
    decreases client_ids.len(),
{
    if client_ids.len() > 0 {
        let shorter = client_ids.drop_last();
        law_client_is_found_by_its_low_bits(shorter, id);
        let last = client_ids.last();
        assert(last as u32 == last % 0x1_0000_0000) by (bit_vector);
        assert forall|j: int| 0 <= j < shorter.len() implies shorter[j]
            == #[trigger] client_ids[j] by {}
    }
}

/// The memberships that are shown of a client are those that were found, in
/// order, where its transport is bound, and none where it is not.
pub proof fn law_memberships_are_those_that_were_found(
    bound: Option<u128>,
    found: Seq<(u32, u32, u32)>,
)
    ensures
        bound is None ==> memberships_of(bound, found).len() == 0,
        bound is Some ==> memberships_of(bound, found).len() == found.len(),
        bound is Some ==> forall|i: int|
            #![trigger memberships_of(bound, found)[i]]
            0 <= i < found.len() ==> {
                let shown = memberships_of(bound, found)[i];
                (shown.stream_id, shown.topic_id, shown.group_id) == found[i]
            },
{
}

/// An archive is sent exactly where it fits, with the frame's 256-byte header,
/// into 64 MiB; an error is handed on as it is.
pub proof fn law_archive_is_sent_where_it_fits(archive_len: Result<usize, IggyError>)
    ensures
        match archive_len {
            Ok(len) => snapshot_reply_of(archive_len) == (if 256 + len <= 64 * 1024 * 1024 {
                SnapshotReply::SendArchive
            } else {
                SnapshotReply::Deny(IggyError::SnapshotFileCompletionFailed)
            }),
            Err(error) => snapshot_reply_of(archive_len) == SnapshotReply::Deny(error),
        },
{
}

/// A snapshot request asks for what its codes stand for, in order. Where the
/// compression stands for nothing, or else the first kind that does, that
/// error is the answer.
pub proof fn law_snapshot_asks_for_what_its_codes_say(
    compression: LookedUp,
    types: Seq<LookedUp>,
)
    ensures
        snapshot_request_of(compression, types) is Ok <==> compression is Ok && (forall|i: int|
            0 <= i < types.len() ==> (#[trigger] types[i]) is Ok),
        snapshot_request_of(compression, types) matches Ok((code, kinds)) ==> {
            &&& compression == Ok::<_, IggyError>(code)
            &&& kinds.len() == types.len()
            &&& forall|i: int|
                0 <= i < types.len() ==> #[trigger] types[i] == Ok::<_, IggyError>(kinds[i])
        },
        compression matches Err(error) ==> snapshot_request_of(compression, types) == Err::<
            (u8, Seq<u8>),
            _,
        >(error),
        forall|i: int|
            #![trigger types[i]]
            compression is Ok && 0 <= i < types.len() && types[i] is Err && (forall|j: int|
                0 <= j < i ==> (#[trigger] types[j]) is Ok) ==> snapshot_request_of(
                compression,
                types,
            ) == Err::<(u8, Seq<u8>), _>(types[i]->Err_0),
    decreases types.len(),
{
    if types.len() > 0 {
        let shorter = types.drop_last();
        law_snapshot_asks_for_what_its_codes_say(compression, shorter);
        assert forall|i: int| 0 <= i < shorter.len() implies shorter[i]
            == #[trigger] types[i] by {}
        assert(types[types.len() - 1] == types.last());
        if snapshot_request_of(compression, types) is Ok {
            assert forall|i: int| 0 <= i < types.len() implies (#[trigger] types[i]) is Ok by {
                if i < shorter.len() {
                    assert(shorter[i] is Ok);
                }
            }
        }
        if compression is Ok && (forall|i: int|
            0 <= i < types.len() ==> (#[trigger] types[i]) is Ok) {
            assert forall|i: int| 0 <= i < shorter.len() implies (#[trigger] shorter[i]) is Ok by {
                assert(types[i] is Ok);
            }
        }
        assert forall|i: int|
            #![trigger types[i]]
            compression is Ok && 0 <= i < types.len() && types[i] is Err && (forall|j: int|
                0 <= j < i ==> (#[trigger] types[j]) is Ok) implies snapshot_request_of(
            compression,
            types,
        ) == Err::<(u8, Seq<u8>), _>(types[i]->Err_0) by {
            assert forall|j: int| 0 <= j < i && j < shorter.len() implies (
            #[trigger] shorter[j]) is Ok by {
                assert(types[j] is Ok);
            }
            if i < shorter.len() {
                assert(shorter[i] is Err);
            }
        }
    }
}

/// A login checks the protocol version, then the body as a password, then the
/// same body as an access token. A wrong version or a malformed prefix evicts;
/// good credentials register their own user; a password that is merely wrong,
/// or no password at all, leads on to the token; every other failure is
/// surfaced as it is.
pub proof fn law_login_goes_by_its_checks(
    check: CredentialCheck,
    prefix: PrefixCheck,
    completed: Result<(), LoginRegisterError>,
)
    ensures
        login_next(LoginEvent::PrefixChecked(prefix)) == (match prefix {
            PrefixCheck::Compatible => (LoginStage::Password, LoginStep::CheckPassword),
            PrefixCheck::Incompatible => (
                LoginStage::Over,
                LoginStep::Evict(EvictionReason::IncompatibleProtocol),
            ),
            PrefixCheck::Malformed => (
                LoginStage::Over,
                LoginStep::Evict(EvictionReason::MalformedLogin),
            ),
        }),
        ({
            let password = login_next(LoginEvent::PasswordChecked(check));
            let token = login_next(LoginEvent::TokenChecked(check));
            &&& check matches Some(Ok(user_id)) ==> password == (
                LoginStage::Complete,
                LoginStep::Complete(user_id),
            ) && token == password
            &&& check is None || check == Some(
                Err::<u32, _>(LoginRegisterError::InvalidCredentials),
            ) ==> password == (LoginStage::Token, LoginStep::CheckToken)
            &&& check matches Some(Err(error)) ==> token == (
                LoginStage::Over,
                LoginStep::SurfaceFailure(error),
            )
            &&& check matches Some(Err(error)) ==> error != LoginRegisterError::InvalidCredentials
                ==> password == token
            &&& check is None ==> token == (LoginStage::Over, LoginStep::ReplyFailure)
        }),
        login_next(LoginEvent::Completed(completed)) == (LoginStage::Over, match completed {
            Ok(_) => LoginStep::Done,
            Err(error) => LoginStep::SurfaceFailure(error),
        }),
{
}

/// An eviction says where it comes from, as far as the shard knows.
pub proof fn law_eviction_names_its_origin(consensus: Option<EvictionContext>)
    ensures
        consensus matches Some(context) ==> eviction_origin(consensus) == context,
        consensus is None ==> eviction_origin(consensus).cluster == 0 && eviction_origin(
            consensus,
        ).view == 0 && eviction_origin(consensus).replica == 0,
{
}

/// A logout is submitted for the client and the session that the transport is
/// bound to, under the number that is given, and only where it is bound; a lost
/// connection's number is the largest there is. It is answered at the commit
/// that it got, or at the last one.
pub proof fn law_logout_is_of_the_bound_session(
    bound: Option<(u128, u64)>,
    request: u64,
    committed: Option<u64>,
    current_commit: u64,
)
    ensures
        logout_of(bound, request) is Some <==> bound is Some,
        logout_of(bound, request) matches Some(logout) ==> bound == Some(
            (logout.vsr_client_id, logout.session),
        ) && logout.request == request,
        DISCONNECT_LOGOUT_REQUEST_ID == u64::MAX,
        committed matches Some(commit) ==> logout_step(committed, current_commit)
            == LogoutStep::UnbindAndReply(commit),
        committed is None ==> logout_step(committed, current_commit)
            == LogoutStep::UnbindAndReply(current_commit),
{
}

/// Of the stale connections, those of group members are evicted, in order, and
/// no other.
pub proof fn law_stale_members_are_evicted_in_order(
    stale: Seq<StaleConnection>,
    transport: u128,
    member: bool,
)
    ensures
        evicted_of(Seq::<StaleConnection>::empty()) == Seq::<u128>::empty(),
        evicted_of(stale.push((transport, member))) == (if member {
            evicted_of(stale).push(transport)
        } else {
            evicted_of(stale)
        }),
{
    lemma_filter_map_push(
        stale,
        |connection: StaleConnection| connection.1,
        |connection: StaleConnection| connection.0,
        (transport, member),
    );
}

/// Which way a request goes, by its operation: a read by its code and the
/// session, a logout always to its handler, a first registration to the
/// handshake, and all else, where there is a session, to the deletes, the
/// partition or the metadata.
pub proof fn law_request_goes_where_its_operation_says(
    header: RequestHeader,
    bound: bool,
    codes: CommandCodes,
)
    ensures
        ({
            let route = route_for(header, bound, codes);
            let read = header.operation is NonReplicated;
            let legacy = header.code == codes.login_user || header.code
                == codes.login_with_personal_access_token;
            let open = header.code == codes.ping || header.code == codes.get_cluster_metadata;
            let logout = header.operation is Logout;
            let handshake = header.operation is Register && header.session == 0 && header.request
                == 0;
            let other = !read && !logout && !handshake;
            let delete = header.operation is DeleteSegments;
            let partition = header.operation is SendMessages || header.operation
                is StoreConsumerOffset2 || header.operation is OtherPartition;
            &&& route is RejectLegacyLogin <==> read && legacy
            &&& route is RejectUnauthenticated <==> read && !legacy && !bound && !open
            &&& route is NonReplicated <==> read && !legacy && (bound || open)
            &&& route is Logout <==> logout
            &&& route is LoginRegister <==> handshake
            &&& route is ReplyEmptyUnbound <==> other && !bound
            &&& route is DeleteSegments <==> other && bound && delete
            &&& route is Partition <==> other && bound && partition
            &&& route is Replicated <==> other && bound && !delete && !partition
        }),
{
}

/// Each read has its own code, and a code that none has goes to the shared
/// builder.
pub proof fn law_read_is_named_by_its_code(code: u32, codes: CommandCodes)
    requires
        codes.ping != codes.get_me,
        codes.ping != codes.get_personal_access_tokens,
        codes.ping != codes.get_clients,
        codes.ping != codes.get_client,
        codes.ping != codes.get_snapshot_file,
        codes.ping != codes.poll_messages,
        codes.ping != codes.get_consumer_offset,
        codes.ping != codes.sync_consumer_group,
        codes.get_me != codes.get_personal_access_tokens,
        codes.get_me != codes.get_clients,
        codes.get_me != codes.get_client,
        codes.get_me != codes.get_snapshot_file,
        codes.get_me != codes.poll_messages,
        codes.get_me != codes.get_consumer_offset,
        codes.get_me != codes.sync_consumer_group,
        codes.get_personal_access_tokens != codes.get_clients,
        codes.get_personal_access_tokens != codes.get_client,
        codes.get_personal_access_tokens != codes.get_snapshot_file,
        codes.get_personal_access_tokens != codes.poll_messages,
        codes.get_personal_access_tokens != codes.get_consumer_offset,
        codes.get_personal_access_tokens != codes.sync_consumer_group,
        codes.get_clients != codes.get_client,
        codes.get_clients != codes.get_snapshot_file,
        codes.get_clients != codes.poll_messages,
        codes.get_clients != codes.get_consumer_offset,
        codes.get_clients != codes.sync_consumer_group,
        codes.get_client != codes.get_snapshot_file,
        codes.get_client != codes.poll_messages,
        codes.get_client != codes.get_consumer_offset,
        codes.get_client != codes.sync_consumer_group,
        codes.get_snapshot_file != codes.poll_messages,
        codes.get_snapshot_file != codes.get_consumer_offset,
        codes.get_snapshot_file != codes.sync_consumer_group,
        codes.poll_messages != codes.get_consumer_offset,
        codes.poll_messages != codes.sync_consumer_group,
        codes.get_consumer_offset != codes.sync_consumer_group,
    ensures
        read_for(code, codes) is Ping <==> code == codes.ping,
        read_for(code, codes) is GetMe <==> code == codes.get_me,
        read_for(code, codes) is GetPersonalAccessTokens <==> code
            == codes.get_personal_access_tokens,
        read_for(code, codes) is GetClients <==> code == codes.get_clients,
        read_for(code, codes) is GetClient <==> code == codes.get_client,
        read_for(code, codes) is GetSnapshot <==> code == codes.get_snapshot_file,
        read_for(code, codes) is PollMessages <==> code == codes.poll_messages,
        read_for(code, codes) is GetConsumerOffset <==> code == codes.get_consumer_offset,
        read_for(code, codes) is SyncConsumerGroup <==> code == codes.sync_consumer_group,
{
}

/// A read is open to everyone only where it concerns the caller alone; reads of
/// all clients and of the server's state need a right of the user, reads of
/// partitions a right on them, and every other the right of its command. What
/// is not allowed is denied with the reason, and what is, is served.
pub proof fn law_reads_of_others_are_gated(
    read: NonReplicatedRead,
    authorized: Result<(), IggyError>,
)
    ensures
        gate_for(read) is Open <==> read is Ping || read is GetMe || read
            is GetPersonalAccessTokens || read is SyncConsumerGroup,
        gate_for(read) is User <==> read is GetClients || read is GetClient || read is GetSnapshot,
        gate_for(read) is Partition <==> read is PollMessages || read is GetConsumerOffset,
        gate_for(read) is Command <==> read is Default,
        gated_read(authorized) is Serve <==> authorized is Ok,
        authorized matches Err(error) ==> gated_read(authorized) == GatedRead::Deny(error),
{
}

/// A replicated request is submitted as the bound client and session, and is
/// else the client's own.
pub proof fn law_replicated_request_is_the_clients_own(
    header: RequestHeader,
    client_id: u128,
    session: u64,
)
    ensures
        ({
            let bound = bound_header(header, client_id, session);
            &&& bound.client == client_id
            &&& bound.session == session
            &&& bound == (RequestHeader { client: bound.client, session: bound.session, ..header })
        }),
{
}

/// A partition request is dispatched to the namespace that was resolved, under
/// the transport that is answered and the bound session, with its own number
/// where that is not zero; all else is the client's own.
pub proof fn law_dispatched_request_is_the_clients_own(
    header: RequestHeader,
    namespace: u64,
    transport_client_id: u128,
    bound_session: u64,
)
    ensures
        ({
            let dispatched = dispatched_header(
                header,
                namespace,
                transport_client_id,
                bound_session,
            );
            &&& dispatched.namespace == namespace
            &&& dispatched.client == transport_client_id
            &&& dispatched.session == bound_session
            &&& header.request != 0 ==> dispatched.request == header.request
            &&& header.request == 0 ==> dispatched.request == 1
            &&& dispatched == (RequestHeader {
                namespace: dispatched.namespace,
                client: dispatched.client,
                session: dispatched.session,
                request: dispatched.request,
                ..header
            })
        }),
{
}

/// A partition request is resolved, authorized, waited for and rewritten, in
/// this order and for the namespace that was resolved, and is then dispatched
/// under the rewritten header. A refusal of rights is answered with its status,
/// any other failure with an empty reply.
pub proof fn law_partition_request_is_answered_by_where_it_failed(
    resolved: Result<u64, IggyError>,
    authorized: Option<u32>,
    routable: bool,
    rewritten: Result<RequestHeader, IggyError>,
    namespace: u64,
    transport_client_id: u128,
    bound_session: u64,
)
    ensures
        partition_next(
            PartitionStage::Resolve,
            PartitionEvent::Resolved(resolved),
            transport_client_id,
            bound_session,
        ) == (match resolved {
            Ok(found) => (PartitionStage::Authorize(found), PartitionStep::Authorize(found)),
            Err(_) => (PartitionStage::Over, PartitionStep::ReplyEmpty),
        }),
        partition_next(
            PartitionStage::Authorize(namespace),
            PartitionEvent::Authorized(authorized),
            transport_client_id,
            bound_session,
        ) == (match authorized {
            None => (
                PartitionStage::AwaitRoutable(namespace),
                PartitionStep::AwaitRoutable(namespace),
            ),
            Some(status) => (PartitionStage::Over, PartitionStep::Deny(status)),
        }),
        partition_next(
            PartitionStage::AwaitRoutable(namespace),
            PartitionEvent::Routable(routable),
            transport_client_id,
            bound_session,
        ) == (if routable {
            (PartitionStage::Rewrite(namespace), PartitionStep::Rewrite)
        } else {
            (PartitionStage::Over, PartitionStep::ReplyEmpty)
        }),
        ({
            let (stage, step) = partition_next(
                PartitionStage::Rewrite(namespace),
                PartitionEvent::Rewritten(rewritten),
                transport_client_id,
                bound_session,
            );
            &&& stage is Over
            &&& rewritten is Err ==> step is ReplyEmpty
            &&& rewritten matches Ok(header) ==> {
                &&& step matches PartitionStep::Dispatch(sent)
                &&& sent.namespace == namespace
                &&& sent.client == transport_client_id
                &&& sent.session == bound_session
                &&& sent.request == (if header.request == 0 {
                    1
                } else {
                    header.request
                })
                &&& sent == (RequestHeader {
                    namespace: sent.namespace,
                    client: sent.client,
                    session: sent.session,
                    request: sent.request,
                    ..header
                })
            }
        }),
{
}

/// A replicated request is rewritten for its token, its password and its group,
/// in this order, then submitted, and its reply built. A malformed password is
/// denied with its error, what did not commit waits for the client to send it
/// again, and what cannot be rewritten or answered is dropped.
pub proof fn law_replicated_request_ends_by_where_it_failed(
    rewritten: Result<(), IggyError>,
    committed: bool,
)
    ensures
        replicated_next(ReplicatedEvent::TokenRewritten(rewritten)) == (if rewritten is Ok {
            (ReplicatedStage::PasswordRewrite, ReplicatedStep::RewritePassword)
        } else {
            (ReplicatedStage::Over, ReplicatedStep::Drop)
        }),
        replicated_next(ReplicatedEvent::PasswordRewritten(rewritten)) == (match rewritten {
            Ok(_) => (ReplicatedStage::GroupRewrite, ReplicatedStep::RewriteGroup),
            Err(error) => (ReplicatedStage::Over, ReplicatedStep::Deny(error)),
        }),
        replicated_next(ReplicatedEvent::GroupRewritten(rewritten)) == (if rewritten is Ok {
            (ReplicatedStage::Submit, ReplicatedStep::Submit)
        } else {
            (ReplicatedStage::Over, ReplicatedStep::Drop)
        }),
        replicated_next(ReplicatedEvent::Submitted(committed)) == (if committed {
            (ReplicatedStage::ReplyBuild, ReplicatedStep::BuildReply)
        } else {
            (ReplicatedStage::Over, ReplicatedStep::AwaitReplay)
        }),
        replicated_next(ReplicatedEvent::ReplyBuilt(rewritten)) == (
            ReplicatedStage::Over,
            if rewritten is Ok {
                ReplicatedStep::SendReply
            } else {
                ReplicatedStep::Drop
            },
        ),
{
}

/// A read's reply goes to the client and the session that its request names, a
/// logout's to those that it logged out, a delete's to the transport under its
/// session, and every other to the transport under none.
pub proof fn law_reply_is_addressed_by_its_kind(
    kind: ReplyKind,
    header: RequestHeader,
    transport_client_id: u128,
)
    ensures
        ({
            let address = address_of(kind, header, transport_client_id);
            match kind {
                ReplyKind::Read => address.client == header.client && address.session
                    == header.session,
                ReplyKind::Logout { vsr_client_id, session } => address.client == vsr_client_id
                    && address.session == session,
                ReplyKind::DeleteSegments { session } => address.client == transport_client_id
                    && address.session == session,
                _ => address.client == transport_client_id && address.session == 0,
            }
        }),
{
}

/// The request that stores an auto-committed offset names the consumer, the
/// offset and the partition of the poll; there is none only where an id does
/// not fit its field.
pub proof fn law_auto_commit_stores_what_was_polled(
    namespace: IggyNamespace,
    applied: AutoCommitApplied,
)
    ensures
        store_request_of(namespace, applied) is Some <==> namespace.stream_id <= u32::MAX
            && namespace.topic_id <= u32::MAX && namespace.partition_id <= u32::MAX,
        store_request_of(namespace, applied) matches Some(request) ==> {
            &&& request.kind == applied.kind
            &&& request.consumer_id == applied.consumer_id
            &&& request.offset == applied.offset
            &&& request.stream_id == namespace.stream_id
            &&& request.topic_id == namespace.topic_id
            &&& request.partition_id == namespace.partition_id
        },
{
}

/// The request that stores an auto-committed offset goes to the partition's own
/// consensus, under the reserved client and a session and number that are not
/// zero, and is refused only where its size does not fit.
pub proof fn law_auto_commit_goes_out_as_the_reserved_client(
    body_len: nat,
    auto_commit_client: u128,
    namespace_raw: u64,
)
    ensures
        match auto_commit_header_of(body_len, auto_commit_client, namespace_raw) {
            Ok(header) => {
                &&& 256 + body_len <= u32::MAX
                &&& header.size == 256 + body_len
                &&& header.operation is StoreConsumerOffset2
                &&& header.client == auto_commit_client
                &&& header.namespace == namespace_raw
                &&& header.session == 1 && header.request == 1
                &&& header.cluster == 0 && header.view == 0 && header.release == 0
                &&& header.user_id == 0 && header.code == 0
            },
            Err(error) => 256 + body_len > u32::MAX && error is InvalidConfiguration,
        },
{
}

/// An auto-committed offset is dropped on every node but a working primary, and
/// on that one only where it is covered already.
pub proof fn law_auto_commit_gate(partition: Option<PartitionStatus>)
    ensures
        gate_of(partition) is NotPrimary <==> !(partition matches Some(status) && status.primary
            && status.normal && !status.syncing),
        gate_of(partition) is Covered <==> (partition matches Some(status) && status.primary
            && status.normal && !status.syncing && status.covered),
        gate_of(partition) is Submit <==> (partition matches Some(status) && status.primary
            && status.normal && !status.syncing && !status.covered),
{
}

/// The metadata consensus runs on the first shard. A submit that is forwarded to
/// it gives the owner's value, and is canceled where the owner is gone or has
/// none.
pub proof fn law_forwarded_value_is_the_owners(reply: OwnerReply<u64>)
    ensures
        METADATA_OWNER == 0,
        forwarded_result(reply) == (match reply {
            Some(Some(value)) => Ok::<u64, _>(value),
            Some(None) => Err(MetadataSubmitError::Canceled),
            None => Err(MetadataSubmitError::Canceled),
        }),
{
}

/// A request that comes in waits last in its client's queue and nowhere else,
/// and its client has a task from then on. A task that asks gets the oldest,
/// which then waits no more, and ends where there is none. A task that is
/// abandoned leaves the queues alone.
pub proof fn law_queues_change_for_one_client<M>(
    state: QueueState<M>,
    client_id: u128,
    message: M,
    other: u128,
)
    requires
        other != client_id,
    ensures
        state.waiting(client_id) == (if state.queues.contains_key(client_id) {
            state.queues[client_id]
        } else {
            Seq::empty()
        }),
        after_enqueue(state, client_id, message).waiting(client_id) == state.waiting(
            client_id,
        ).push(message),
        after_enqueue(state, client_id, message).waiting(other) == state.waiting(other),
        after_enqueue(state, client_id, message).active == state.active.insert(client_id),
        next_request(state, client_id) is Some <==> state.waiting(client_id).len() > 0,
        state.waiting(client_id).len() > 0 ==> {
            &&& next_request(state, client_id) == Some(state.waiting(client_id)[0])
            &&& after_pop(state, client_id).waiting(client_id) == state.waiting(
                client_id,
            ).drop_first()
            &&& after_pop(state, client_id).active == state.active
        },
        state.waiting(client_id).len() == 0 ==> {
            &&& after_pop(state, client_id).waiting(client_id).len() == 0
            &&& after_pop(state, client_id).active == state.active.remove(client_id)
        },
        after_pop(state, client_id).waiting(other) == state.waiting(other),
        after_abandon(state, client_id).waiting(client_id) == state.waiting(client_id),
        after_abandon(state, client_id).waiting(other) == state.waiting(other),
        after_abandon(state, client_id).active == state.active.remove(client_id),
{
    if state.waiting(client_id).len() == 1 {
        assert(state.waiting(client_id).drop_first() =~= Seq::empty());
        assert(after_pop(state, client_id).waiting(client_id) =~= Seq::empty());
    }
}

/// A trim is of the partition that was resolved, and goes as far as the owning
/// shard said: to the offset that it found, and nowhere where it found none or
/// did not answer. A shard that found none because it is behind is asked again
/// later, and only then is there no trim.
pub proof fn law_trim_goes_as_far_as_the_owner_said(
    header: RequestHeader,
    namespace: IggyNamespace,
    answer: Option<PartitionReadReply>,
)
    ensures
        ({
            let behind = answer == Some(
                PartitionReadReply::SegmentDeleteOffset { up_to_offset: None, lagging: true },
            );
            &&& behind <==> truncate_of(header, namespace, answer) is Err
            &&& behind ==> truncate_of(header, namespace, answer)->Err_0 is TransientNotAccepted
            &&& truncate_of(header, namespace, answer) matches Ok(truncate) ==> {
                &&& truncate.header == header
                &&& truncate.stream_id == namespace.stream_id as u64 % 0x1_0000_0000
                &&& truncate.topic_id == namespace.topic_id as u64 % 0x1_0000_0000
                &&& truncate.partition_id == namespace.partition_id as u64 % 0x1_0000_0000
                &&& truncate.up_to_offset == (match answer {
                    Some(
                        PartitionReadReply::SegmentDeleteOffset {
                            up_to_offset: Some(offset),
                            lagging: _,
                        },
                    ) => offset,
                    _ => 0,
                })
            }
        }),
{
    let stream_id = namespace.stream_id;
    let topic_id = namespace.topic_id;
    let partition_id = namespace.partition_id;
    assert(stream_id as u32 == stream_id as u64 % 0x1_0000_0000) by (bit_vector);
    assert(topic_id as u32 == topic_id as u64 % 0x1_0000_0000) by (bit_vector);
    assert(partition_id as u32 == partition_id as u64 % 0x1_0000_0000) by (bit_vector);
}

/// A delete asks the shard that owns its partition how far its own count of
/// segments reaches. It commits the trim that the answer calls for, under the
/// bound client and session and the delete's own number; without a body or a
/// partition it fails with the reason, and nothing is asked.
pub proof fn law_delete_trims_its_own_partition(
    template: RequestHeader,
    client_id: u128,
    session: u64,
    request: DeleteSegmentsRequest,
    decoded: Option<DeleteSegmentsRequest>,
    namespace: IggyNamespace,
    error: IggyError,
    answer: Option<PartitionReadReply>,
)
    ensures
        delete_step(Some(request), Ok(namespace)) == (DeleteStep::ResolveOffset {
            namespace,
            count: request.segments_count,
        }),
        delete_step(None, Ok(namespace)) is ReplyEmpty,
        delete_step(decoded, Err(error)) is ReplyEmpty,
        resolved_delete(template, client_id, session, None, Ok(namespace), answer) == Err::<
            Truncate,
            _,
        >(IggyError::InvalidCommand),
        resolved_delete(template, client_id, session, None, Err(error), answer) == Err::<
            Truncate,
            _,
        >(IggyError::InvalidCommand),
        resolved_delete(template, client_id, session, Some(request), Err(error), answer) == Err::<
            Truncate,
            _,
        >(error),
        ({
            let header = truncate_header_of(template, client_id, session);
            &&& resolved_delete(
                template,
                client_id,
                session,
                Some(request),
                Ok(namespace),
                answer,
            ) == truncate_of(header, namespace, answer)
            &&& header.operation is TruncatePartition
            &&& header.client == client_id
            &&& header.session == session
            &&& header == (RequestHeader {
                operation: header.operation,
                client: header.client,
                session: header.session,
                ..template
            })
        }),
{
}

/// A trim that was resolved is committed as it is; a shard that was behind is
/// reported as such; any other failure is answered with an empty reply.
pub proof fn law_resolved_trim_is_committed_as_it_is(truncate: Result<Truncate, IggyError>)
    ensures
        truncate matches Ok(trim) ==> after_resolution(truncate) == DeleteStep::Commit(trim),
        truncate matches Err(error) ==> error is TransientNotAccepted ==> after_resolution(
            truncate,
        ) is RejectTransient,
        truncate matches Err(error) ==> !(error is TransientNotAccepted) ==> after_resolution(
            truncate,
        ) is ReplyEmpty,
{
}

/// The wait for a new partition takes three seconds at most. While its budget
/// lasts, it sleeps as long as the row is missing, then asks the owner, and
/// sleeps as long as the owner does not show the partition; after every sleep
/// it looks again.
pub proof fn law_wait_goes_on_while_its_budget_lasts(
    sleeps: u32,
    found: bool,
    reply: Option<PartitionReadReply>,
)
    requires
        sleeps < MAX_ATTEMPTS,
    ensures
        MAX_ATTEMPTS == 60,
        ATTEMPT_DELAY_MILLIS == 50,
        routable_next(RoutableStage::FirstRow, RoutableEvent::RowFound(found)) == (if found {
            (RoutableStage::Over, RoutableStep::Done(true))
        } else {
            (RoutableStage::Row(0), RoutableStep::CheckRow)
        }),
        routable_next(RoutableStage::Row(sleeps), RoutableEvent::RowFound(found)) == (if found {
            (RoutableStage::Probe(sleeps), RoutableStep::ProbeOwner)
        } else {
            (RoutableStage::RowSleep((sleeps + 1) as u32), RoutableStep::Sleep)
        }),
        routable_next(RoutableStage::RowSleep(sleeps), RoutableEvent::Slept) == (
            RoutableStage::Row(sleeps),
            RoutableStep::CheckRow,
        ),
        ({
            let shown = match reply {
                Some(PartitionReadReply::NotFound) => false,
                Some(_) => true,
                None => false,
            };
            &&& shows_partition(reply) == shown
            &&& routable_next(RoutableStage::Probe(sleeps), RoutableEvent::OwnerReplied(reply))
                == (if shown {
                (RoutableStage::Over, RoutableStep::Done(true))
            } else {
                (RoutableStage::ProbeSleep((sleeps + 1) as u32), RoutableStep::Sleep)
            })
        }),
        routable_next(RoutableStage::ProbeSleep(sleeps), RoutableEvent::Slept) == (
            RoutableStage::Probe(sleeps),
            RoutableStep::ProbeOwner,
        ),
        routable_next(RoutableStage::ProbeSleep(MAX_ATTEMPTS), RoutableEvent::Slept) == (
            RoutableStage::Over,
            RoutableStep::Done(false),
        ),
        routable_next(RoutableStage::Row(MAX_ATTEMPTS), RoutableEvent::RowFound(found)) == (
            RoutableStage::Over,
            RoutableStep::Done(false),
        ),
{
}

} // verus!
