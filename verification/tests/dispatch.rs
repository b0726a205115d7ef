//! Routing and handling of client requests.
use iggy_core::dispatch::autocommit::{
    auto_commit_gate, auto_commit_store_request, build_auto_commit_request, AutoCommitApplied,
    AutoCommitGate, PartitionStatus,
};
use iggy_core::dispatch::owner::{
    on_owner_reply, on_owner_request_reply, owner_path, plan_metadata_submit, submit_reply,
    MetadataSubmit, MetadataSubmitError, OwnerPath, SubmitPlan,
};
use iggy_core::dispatch::partition::{
    on_partition_request, PartitionEvent, PartitionStage, PartitionStep,
};
use iggy_core::dispatch::queues::ClientRequestQueues;
use iggy_core::dispatch::reads::{
    empty_polled_messages_body, on_offset_read, on_poll, polling_consumer_from_wire,
    polling_strategy_from_wire, resolve_consumer_offset_request, resolve_poll_request,
    GetConsumerOffsetRequest, OffsetEvent, OffsetStage, OffsetStep, PollEvent, PollMessagesRequest,
    PollStage, PollStep, PollingArgs, PollingConsumer, PollingKind, PollingStrategy, ReadLookups,
    WireConsumer, WireIdentifier, WirePollingStrategy,
};
use iggy_core::dispatch::replicated::{
    on_replicated, ReplicatedEvent, ReplicatedStage, ReplicatedStep,
};
use iggy_core::dispatch::reply::{evicted_client, reply_address, ReplyAddress, ReplyKind};
use iggy_core::dispatch::routable::{
    on_routable, RoutableEvent, RoutableStage, RoutableStep, MAX_ATTEMPTS,
};
use iggy_core::dispatch::route::{
    bind_header, classify_read, on_gate, read_gate, refusal_reason, route_client_request,
    CommandCodes, GatedRead, NonReplicatedRead, ReadGate, Route,
};
use iggy_core::dispatch::segments::{
    on_delete_resolved, on_truncate_submitted, plan_delete_segments,
    resolve_delete_segments_truncate, truncate_header, DeleteSegmentsRequest, DeleteStep, Truncate,
    TruncateOutcome,
};
use iggy_core::dispatch::serving::{
    client_memberships, decode_get_snapshot, find_client, is_group_member, serve_partition_read,
    snapshot_reply, synced_assignment, Membership, PartitionLookup, PartitionReadReply, ReadServing,
    SnapshotReply, MAX_MESSAGE_SIZE,
};
use iggy_core::dispatch::sessions::{
    carries_protocol_window, connections_to_evict, eviction_context, on_login, on_logout_submitted,
    plan_disconnect_logout, plan_logout, EvictionContext, EvictionReason, LoginEvent,
    LoginRegisterError, LoginStage, LoginStep, LogoutStep, LogoutSubmit, PrefixCheck,
};
use iggy_core::error::IggyError;
use iggy_core::message::{Operation, RequestHeader};
use iggy_core::namespace::IggyNamespace;

const CODES: CommandCodes = CommandCodes {
    ping: 1,
    get_cluster_metadata: 2,
    login_user: 3,
    login_with_personal_access_token: 4,
    get_me: 5,
    get_personal_access_tokens: 6,
    get_clients: 7,
    get_client: 8,
    get_snapshot_file: 9,
    poll_messages: 10,
    get_consumer_offset: 11,
    sync_consumer_group: 12,
};

const GROUP_KIND: u8 = 2;
const SENTINEL: u32 = 4_000_000_000;

fn header(operation: Operation, code: u32) -> RequestHeader {
    RequestHeader {
        cluster: 3,
        view: 4,
        release: 5,
        operation,
        size: 256,
        client: 6,
        session: 7,
        request: 8,
        namespace: 9,
        user_id: 10,
        code,
    }
}

fn route(operation: Operation, code: u32, bound: bool) -> Route {
    route_client_request(&header(operation, code), bound, &CODES)
}

#[test]
fn requests_go_their_way() {
    let non_replicated = Operation::NonReplicated;
    for bound in [false, true] {
        assert_eq!(route(non_replicated, 3, bound), Route::RejectLegacyLogin);
        assert_eq!(route(non_replicated, 4, bound), Route::RejectLegacyLogin);
        assert_eq!(route(non_replicated, 1, bound), Route::NonReplicated);
        assert_eq!(route(non_replicated, 2, bound), Route::NonReplicated);
        assert_eq!(route(Operation::Logout, 0, bound), Route::Logout);
    }
    assert_eq!(route(non_replicated, 10, false), Route::RejectUnauthenticated);
    assert_eq!(route(non_replicated, 10, true), Route::NonReplicated);
    assert_eq!(
        route(Operation::OtherMetadata, 0, false),
        Route::ReplyEmptyUnbound
    );
    assert_eq!(route(Operation::DeleteSegments, 0, true), Route::DeleteSegments);
    assert_eq!(route(Operation::SendMessages, 0, true), Route::Partition);
    assert_eq!(route(Operation::OtherPartition, 0, true), Route::Partition);
    assert_eq!(route(Operation::StoreConsumerOffset2, 0, true), Route::Partition);
    assert_eq!(route(Operation::OtherMetadata, 0, true), Route::Replicated);
    assert_eq!(route(Operation::TruncatePartition, 0, true), Route::Replicated);
    assert_eq!(route(Operation::Register, 0, true), Route::Replicated);
    let mut register = header(Operation::Register, 0);
    register.session = 0;
    register.request = 0;
    assert_eq!(
        route_client_request(&register, false, &CODES),
        Route::LoginRegister
    );
}

#[test]
fn reads_are_told_apart_and_gated() {
    let expected = [
        (1, NonReplicatedRead::Ping, ReadGate::Open),
        (5, NonReplicatedRead::GetMe, ReadGate::Open),
        (6, NonReplicatedRead::GetPersonalAccessTokens, ReadGate::Open),
        (7, NonReplicatedRead::GetClients, ReadGate::User),
        (8, NonReplicatedRead::GetClient, ReadGate::User),
        (9, NonReplicatedRead::GetSnapshot, ReadGate::User),
        (10, NonReplicatedRead::PollMessages, ReadGate::Partition),
        (11, NonReplicatedRead::GetConsumerOffset, ReadGate::Partition),
        (12, NonReplicatedRead::SyncConsumerGroup, ReadGate::Open),
        (2, NonReplicatedRead::Default, ReadGate::Command),
        (99, NonReplicatedRead::Default, ReadGate::Command),
    ];
    for (code, read, gate) in expected {
        assert_eq!(classify_read(code, &CODES), read);
        assert_eq!(read_gate(read), gate);
    }
    assert_eq!(on_gate(Ok(())), GatedRead::Serve);
    assert_eq!(
        on_gate(Err(IggyError::Other(41))),
        GatedRead::Deny(IggyError::Other(41))
    );
}

#[test]
fn replicated_header_is_that_of_the_bound_session() {
    let bound = bind_header(header(Operation::OtherMetadata, 0), 70, 71);
    assert_eq!((bound.client, bound.session, bound.request), (70, 71, 8));
}

#[test]
fn client_requests_are_served_in_order_by_one_task() {
    let mut queues: ClientRequestQueues<&str> = ClientRequestQueues::new();
    assert!(queues.enqueue_client_request(1, "a"));
    assert!(!queues.enqueue_client_request(1, "b"));
    assert!(queues.enqueue_client_request(2, "x"));
    assert_eq!(queues.pop_next_client_request(1), Some("a"));
    assert!(!queues.enqueue_client_request(1, "c"));
    assert_eq!(queues.pop_next_client_request(1), Some("b"));
    assert_eq!(queues.pop_next_client_request(1), Some("c"));
    // The task still runs until it is told that nothing is left.
    assert!(!queues.enqueue_client_request(1, "d"));
    assert_eq!(queues.pop_next_client_request(1), Some("d"));
    assert_eq!(queues.pop_next_client_request(1), None);
    assert!(queues.enqueue_client_request(1, "e"));
    assert_eq!(queues.pop_next_client_request(2), Some("x"));
}

#[test]
fn abandoned_requests_are_served_by_the_next_task() {
    let mut queues: ClientRequestQueues<u8> = ClientRequestQueues::new();
    assert!(queues.enqueue_client_request(1, 10));
    queues.abandon(1);
    assert!(queues.enqueue_client_request(1, 11));
    assert_eq!(queues.pop_next_client_request(1), Some(10));
    assert_eq!(queues.pop_next_client_request(1), Some(11));
}

fn run_replicated(events: &[ReplicatedEvent]) -> (ReplicatedStage, ReplicatedStep) {
    let mut at = (ReplicatedStage::TokenRewrite, ReplicatedStep::Drop);
    for event in events {
        at = on_replicated(at.0, *event);
    }
    at
}

#[test]
fn replicated_request_runs_to_its_reply() {
    let error = IggyError::InvalidCommand;
    assert_eq!(
        run_replicated(&[ReplicatedEvent::TokenRewritten(Ok(()))]).1,
        ReplicatedStep::RewritePassword
    );
    assert_eq!(
        run_replicated(&[ReplicatedEvent::TokenRewritten(Err(error))]).1,
        ReplicatedStep::Drop
    );
    let password = [ReplicatedEvent::TokenRewritten(Ok(())), ReplicatedEvent::PasswordRewritten(Err(error))];
    assert_eq!(run_replicated(&password).1, ReplicatedStep::Deny(error));
    let group = [
        ReplicatedEvent::TokenRewritten(Ok(())),
        ReplicatedEvent::PasswordRewritten(Ok(())),
        ReplicatedEvent::GroupRewritten(Err(error)),
    ];
    assert_eq!(run_replicated(&group).1, ReplicatedStep::Drop);
    let mut events = vec![
        ReplicatedEvent::TokenRewritten(Ok(())),
        ReplicatedEvent::PasswordRewritten(Ok(())),
        ReplicatedEvent::GroupRewritten(Ok(())),
    ];
    assert_eq!(run_replicated(&events).1, ReplicatedStep::Submit);
    events.push(ReplicatedEvent::Submitted(false));
    assert_eq!(run_replicated(&events).1, ReplicatedStep::AwaitReplay);
    events[3] = ReplicatedEvent::Submitted(true);
    assert_eq!(run_replicated(&events).1, ReplicatedStep::BuildReply);
    events.push(ReplicatedEvent::ReplyBuilt(Ok(())));
    assert_eq!(
        run_replicated(&events),
        (ReplicatedStage::Over, ReplicatedStep::SendReply)
    );
    events[4] = ReplicatedEvent::ReplyBuilt(Err(error));
    assert_eq!(run_replicated(&events).1, ReplicatedStep::Drop);
}

fn run_partition(events: &[PartitionEvent]) -> PartitionStep {
    let mut at = (PartitionStage::Resolve, PartitionStep::ReplyEmpty);
    for event in events {
        at = on_partition_request(at.0, *event, 77, 5);
    }
    at.1
}

#[test]
fn partition_request_is_dispatched_under_the_transport() {
    let error = IggyError::InvalidIdentifier;
    let mut rewritten = header(Operation::SendMessages, 0);
    rewritten.request = 0;
    assert_eq!(
        run_partition(&[PartitionEvent::Resolved(Err(error))]),
        PartitionStep::ReplyEmpty
    );
    assert_eq!(
        run_partition(&[PartitionEvent::Resolved(Ok(40))]),
        PartitionStep::Authorize(40)
    );
    assert_eq!(
        run_partition(&[PartitionEvent::Resolved(Ok(40)), PartitionEvent::Authorized(Some(13))]),
        PartitionStep::Deny(13)
    );
    assert_eq!(
        run_partition(&[PartitionEvent::Resolved(Ok(40)), PartitionEvent::Authorized(None)]),
        PartitionStep::AwaitRoutable(40)
    );
    assert_eq!(
        run_partition(&[PartitionEvent::Resolved(Ok(40)), PartitionEvent::Authorized(None), PartitionEvent::Routable(false)]),
        PartitionStep::ReplyEmpty
    );
    assert_eq!(
        run_partition(&[PartitionEvent::Resolved(Ok(40)), PartitionEvent::Authorized(None), PartitionEvent::Routable(true)]),
        PartitionStep::Rewrite
    );
    assert_eq!(
        run_partition(&[
            PartitionEvent::Resolved(Ok(40)),
            PartitionEvent::Authorized(None),
            PartitionEvent::Routable(true),
            PartitionEvent::Rewritten(Err(error))
        ]),
        PartitionStep::ReplyEmpty
    );
    let dispatched = run_partition(&[
        PartitionEvent::Resolved(Ok(40)),
        PartitionEvent::Authorized(None),
        PartitionEvent::Routable(true),
        PartitionEvent::Rewritten(Ok(rewritten)),
    ]);
    assert!(matches!(
        dispatched,
        PartitionStep::Dispatch(header)
            if header.namespace == 40
                && header.client == 77
                && header.session == 5
                && header.request == 1
                && header.size == 256
    ));
}

#[test]
fn partition_with_a_row_is_routable_at_once() {
    assert_eq!(
        on_routable(RoutableStage::FirstRow, RoutableEvent::RowFound(true)),
        (RoutableStage::Over, RoutableStep::Done(true))
    );
}

/// The owner is silent at first, then without the partition, then holds it.
fn owner_reply(sleeps: u32, owner_after: u32) -> Option<PartitionReadReply> {
    if sleeps >= owner_after {
        Some(PartitionReadReply::ConsumerOffset {
            stored: None,
            current_offset: 0,
        })
    } else if sleeps % 2 == 0 {
        Some(PartitionReadReply::NotFound)
    } else {
        None
    }
}

/// Runs a wait: the row comes after `row_after` sleeps, the owner answers
/// after `owner_after`. Returns the outcome, the sleeps and the probes.
fn run_wait(row_after: u32, owner_after: u32) -> (bool, u32, u32) {
    let mut stage = RoutableStage::FirstRow;
    let mut step = RoutableStep::CheckRow;
    let mut sleeps = 0;
    let mut probes = 0;
    loop {
        let event = match step {
            RoutableStep::CheckRow => RoutableEvent::RowFound(sleeps >= row_after),
            RoutableStep::ProbeOwner => {
                probes += 1;
                RoutableEvent::OwnerReplied(owner_reply(sleeps, owner_after))
            }
            RoutableStep::Sleep => {
                sleeps += 1;
                RoutableEvent::Slept
            }
            RoutableStep::Done(routable) => return (routable, sleeps, probes),
        };
        (stage, step) = on_routable(stage, event);
    }
}

#[test]
fn wait_for_a_partition_is_bounded() {
    assert_eq!(run_wait(0, 0), (true, 0, 0));
    assert_eq!(run_wait(2, 2), (true, 2, 1));
    assert_eq!(run_wait(2, 5), (true, 5, 4));
    assert_eq!(run_wait(100, 100), (false, MAX_ATTEMPTS, 0));
    assert_eq!(run_wait(10, 100), (false, MAX_ATTEMPTS, 50));
    assert_eq!(run_wait(60, 0), (false, 60, 0));
    assert_eq!(run_wait(59, 60), (false, 60, 1));
}

fn run_login(events: &[LoginEvent]) -> LoginStep {
    let mut at = (LoginStage::Prefix, LoginStep::Done);
    for event in events {
        at = on_login(at.0, *event);
    }
    at.1
}

#[test]
fn login_checks_version_then_password_then_token() {
    let compatible = LoginEvent::PrefixChecked(PrefixCheck::Compatible);
    let wrong = LoginRegisterError::InvalidCredentials;
    let other = LoginRegisterError::Other(5);
    assert_eq!(
        run_login(&[LoginEvent::PrefixChecked(PrefixCheck::Malformed)]),
        LoginStep::Evict(EvictionReason::MalformedLogin)
    );
    assert_eq!(
        run_login(&[LoginEvent::PrefixChecked(PrefixCheck::Incompatible)]),
        LoginStep::Evict(EvictionReason::IncompatibleProtocol)
    );
    assert_eq!(run_login(&[compatible]), LoginStep::CheckPassword);
    assert_eq!(
        run_login(&[compatible, LoginEvent::PasswordChecked(Some(Ok(3)))]),
        LoginStep::Complete(3)
    );
    assert_eq!(
        run_login(&[compatible, LoginEvent::PasswordChecked(Some(Err(other)))]),
        LoginStep::SurfaceFailure(other)
    );
    for password in [None, Some(Err(wrong))] {
        let checked = [compatible, LoginEvent::PasswordChecked(password)];
        assert_eq!(run_login(&checked), LoginStep::CheckToken);
        let with = |token| run_login(&[checked[0], checked[1], LoginEvent::TokenChecked(token)]);
        assert_eq!(with(Some(Ok(4))), LoginStep::Complete(4));
        assert_eq!(with(Some(Err(wrong))), LoginStep::SurfaceFailure(wrong));
        assert_eq!(with(None), LoginStep::ReplyFailure);
    }
    let registered = [compatible, LoginEvent::PasswordChecked(Some(Ok(3)))];
    assert_eq!(
        run_login(&[registered[0], registered[1], LoginEvent::Completed(Ok(()))]),
        LoginStep::Done
    );
    assert_eq!(
        run_login(&[registered[0], registered[1], LoginEvent::Completed(Err(other))]),
        LoginStep::SurfaceFailure(other)
    );
}

#[test]
fn logout_rejected_by_closed_gate_must_still_reply_to_client() {
    // The logout is submitted behind a sibling's commit that is in flight: it
    // commits after it, or the closed gate refuses it.
    let mut request = header(Operation::Logout, 0);
    request.request = 2;
    let submit = plan_logout(Some((1, 1)), &request);
    assert_eq!(
        submit,
        Some(LogoutSubmit {
            vsr_client_id: 1,
            session: 1,
            request: 2
        })
    );
    assert_eq!(
        on_logout_submitted(Some(2), 1),
        LogoutStep::UnbindAndReply(2),
        "logout must unbind the session and produce a reply frame"
    );
    assert_eq!(
        on_logout_submitted(None, 1),
        LogoutStep::UnbindAndReply(1),
        "a rejected logout must unbind the session and produce a reply frame"
    );
    assert_eq!(
        reply_address(
            ReplyKind::Logout {
                vsr_client_id: 1,
                session: 1
            },
            &request,
            77
        ),
        ReplyAddress {
            client: 1,
            session: 1
        }
    );
}

#[test]
fn refused_clients_learn_why() {
    let reason = |code, bound| refusal_reason(route(Operation::NonReplicated, code, bound));
    assert_eq!(
        reason(CODES.login_user, true),
        Some(EvictionReason::MalformedLogin)
    );
    assert_eq!(
        reason(CODES.login_with_personal_access_token, false),
        Some(EvictionReason::MalformedLogin)
    );
    assert_eq!(
        reason(CODES.get_clients, false),
        Some(EvictionReason::NoSession)
    );
    assert_eq!(reason(CODES.get_clients, true), None);
    assert_eq!(reason(CODES.ping, false), None);
    assert_eq!(refusal_reason(Route::ReplyEmptyUnbound), None);
}

#[test]
fn logout_without_a_session_is_not_submitted() {
    assert_eq!(plan_logout(None, &header(Operation::Logout, 0)), None);
    assert_eq!(plan_disconnect_logout(None), None);
    assert_eq!(
        plan_disconnect_logout(Some((4, 5))),
        Some(LogoutSubmit {
            vsr_client_id: 4,
            session: 5,
            request: u64::MAX
        })
    );
}

#[test]
fn only_stale_group_members_are_evicted() {
    assert_eq!(
        connections_to_evict(&[(1, true), (2, false), (3, true)]),
        vec![1, 3]
    );
}

#[test]
fn evictions_name_their_origin_and_their_client() {
    let context = EvictionContext {
        cluster: 1,
        view: 2,
        replica: 3,
    };
    assert_eq!(eviction_context(Some(context)), context);
    assert_eq!(
        eviction_context(None),
        EvictionContext {
            cluster: 0,
            view: 0,
            replica: 0
        }
    );
    assert!(carries_protocol_window(EvictionReason::IncompatibleProtocol));
    assert!(!carries_protocol_window(EvictionReason::MalformedLogin));
    assert_eq!(evicted_client(EvictionReason::MalformedLogin, 6, 77), 6);
    assert_eq!(evicted_client(EvictionReason::IncompatibleProtocol, 6, 77), 6);
    assert_eq!(evicted_client(EvictionReason::NoSession, 6, 77), 77);
    assert_eq!(evicted_client(EvictionReason::StaleClient, 6, 77), 77);
}

#[test]
fn replies_name_the_client_that_can_read_them() {
    let request = header(Operation::SendMessages, 0);
    let address = |kind| {
        let address = reply_address(kind, &request, 77);
        (address.client, address.session)
    };
    assert_eq!(address(ReplyKind::Unbound), (77, 0));
    assert_eq!(address(ReplyKind::EmptyPartition), (77, 0));
    assert_eq!(address(ReplyKind::PasswordDenied), (77, 0));
    assert_eq!(address(ReplyKind::Read), (6, 7));
    assert_eq!(address(ReplyKind::DeleteSegments { session: 3 }), (77, 3));
}

fn consumer(kind: u8, id: WireIdentifier) -> WireConsumer {
    WireConsumer { kind, id }
}

fn poll(kind: u8, partition_id: Option<u32>) -> PollMessagesRequest {
    PollMessagesRequest {
        consumer: consumer(kind, WireIdentifier::Numeric(12)),
        partition_id,
        strategy: WirePollingStrategy { kind: 5, value: 0 },
        count: 100,
        auto_commit: true,
    }
}

fn lookups(group_id: Option<u64>) -> ReadLookups {
    ReadLookups {
        group_id,
        namespace: Ok(IggyNamespace::new(1, 2, 3)),
        name_hash: 0xABCD,
        group_kind: GROUP_KIND,
    }
}

#[test]
fn polling_strategies_keep_their_value() {
    let kinds = [
        PollingKind::Offset,
        PollingKind::Timestamp,
        PollingKind::First,
        PollingKind::Last,
        PollingKind::Next,
    ];
    for (index, kind) in kinds.into_iter().enumerate() {
        let wire = WirePollingStrategy {
            kind: index as u8 + 1,
            value: 33,
        };
        assert_eq!(
            polling_strategy_from_wire(&wire),
            Ok(PollingStrategy { kind, value: 33 })
        );
    }
    for kind in [0, 6] {
        assert_eq!(
            polling_strategy_from_wire(&WirePollingStrategy { kind, value: 1 }),
            Err(IggyError::InvalidCommand)
        );
    }
}

#[test]
fn named_consumers_go_by_their_hash() {
    let map = |wire: &WireConsumer| polling_consumer_from_wire(wire, 4, 0xABCD, GROUP_KIND);
    assert_eq!(
        map(&consumer(1, WireIdentifier::Numeric(9))),
        Ok(PollingConsumer::Consumer(9, 4))
    );
    assert_eq!(
        map(&consumer(2, WireIdentifier::Named("orders".to_string()))),
        Ok(PollingConsumer::ConsumerGroup(0xABCD, 4))
    );
    assert_eq!(
        map(&consumer(3, WireIdentifier::Numeric(9))),
        Err(IggyError::InvalidCommand)
    );
}

#[test]
fn poll_of_a_consumer_reads_the_first_partition_by_default() {
    assert_eq!(
        resolve_poll_request(&poll(1, None), 5, &lookups(None)),
        Ok((
            IggyNamespace::new(1, 2, 3),
            0,
            PollingConsumer::Consumer(12, 0),
            PollingArgs {
                strategy: PollingStrategy {
                    kind: PollingKind::Next,
                    value: 0
                },
                count: 100,
                auto_commit: true
            }
        ))
    );
}

#[test]
fn poll_of_a_group_is_fenced() {
    assert_eq!(
        resolve_poll_request(&poll(2, None), 5, &lookups(Some(8))),
        Err(IggyError::InvalidIdentifier)
    );
    let client: u128 = (9 << 32) + 5;
    assert_eq!(
        resolve_poll_request(&poll(2, Some(3)), client, &lookups(None)),
        Err(IggyError::ConsumerGroupPartitionNotOwned(5, 3))
    );
    let mut unresolved = lookups(Some(8));
    unresolved.namespace = Err(IggyError::Other(2));
    assert_eq!(
        resolve_poll_request(&poll(2, Some(3)), client, &unresolved),
        Err(IggyError::Other(2))
    );
    let resolved = resolve_poll_request(&poll(2, Some(3)), client, &lookups(Some(8)));
    assert!(matches!(
        resolved,
        Ok((_, 3, PollingConsumer::ConsumerGroup(8, 3), _))
    ));
}

#[test]
fn offset_of_a_group_is_read_under_its_id() {
    let request = |kind| GetConsumerOffsetRequest {
        consumer: consumer(kind, WireIdentifier::Numeric(12)),
        partition_id: None,
    };
    let namespace = IggyNamespace::new(1, 2, 3);
    assert_eq!(
        resolve_consumer_offset_request(&request(2), &lookups(Some(8))),
        Ok((namespace, 0, PollingConsumer::ConsumerGroup(8, 0)))
    );
    assert_eq!(
        resolve_consumer_offset_request(&request(2), &lookups(None)),
        Err(IggyError::InvalidIdentifier)
    );
    assert_eq!(
        resolve_consumer_offset_request(&request(1), &lookups(None)),
        Ok((namespace, 0, PollingConsumer::Consumer(12, 0)))
    );
    assert_eq!(
        resolve_consumer_offset_request(&request(7), &lookups(None)),
        Err(IggyError::InvalidCommand)
    );
}

#[test]
fn empty_poll_has_sixteen_bytes() {
    let body = empty_polled_messages_body(0x0102_0304);
    assert_eq!(&body[..4], &[4, 3, 2, 1]);
    assert_eq!(&body[4..], &[0u8; 12]);
}

fn run_poll(events: &[PollEvent]) -> PollStep {
    let mut at = (PollStage::Decode, PollStep::ReplyEmptyPoll(0));
    for event in events {
        at = on_poll(at.0, *event, SENTINEL);
    }
    at.1
}

#[test]
fn every_poll_is_answered() {
    let resolved = resolve_poll_request(&poll(1, Some(6)), 5, &lookups(None));
    assert_eq!(run_poll(&[PollEvent::Decoded(false)]), PollStep::ReplyEmptyPoll(0));
    assert_eq!(
        run_poll(&[PollEvent::Decoded(true), PollEvent::Authorized(Some(9))]),
        PollStep::Deny(9)
    );
    let stale = Err(IggyError::ConsumerGroupPartitionNotOwned(1, 2));
    assert_eq!(
        run_poll(&[PollEvent::Decoded(true), PollEvent::Authorized(None), PollEvent::Resolved(stale)]),
        PollStep::ReplyEmptyPoll(SENTINEL)
    );
    assert_eq!(
        run_poll(&[
            PollEvent::Decoded(true),
            PollEvent::Authorized(None),
            PollEvent::Resolved(Err(IggyError::InvalidCommand))
        ]),
        PollStep::ReplyEmptyPoll(0)
    );
    let mut events = vec![PollEvent::Decoded(true), PollEvent::Authorized(None), PollEvent::Resolved(resolved)];
    assert!(matches!(run_poll(&events), PollStep::Read(..)));
    events.push(PollEvent::ReadDone(None));
    assert_eq!(run_poll(&events), PollStep::ReplyEmptyPoll(6));
    events[3] = PollEvent::ReadDone(Some(PartitionReadReply::NotFound));
    assert_eq!(run_poll(&events), PollStep::ReplyEmptyPoll(6));
    events[3] = PollEvent::ReadDone(Some(PartitionReadReply::Poll { current_offset: 44 }));
    assert_eq!(
        run_poll(&events),
        PollStep::Encode {
            partition_id: 6,
            current_offset: 44
        }
    );
    events.push(PollEvent::Encoded(false));
    assert_eq!(run_poll(&events), PollStep::ReplyEmptyPoll(6));
    events[4] = PollEvent::Encoded(true);
    assert_eq!(run_poll(&events), PollStep::SendMessages);
}

#[test]
fn every_offset_read_is_answered() {
    let run = |events: &[OffsetEvent]| {
        let mut at = (OffsetStage::Decode, OffsetStep::ReplyEmpty);
        for event in events {
            at = on_offset_read(at.0, *event);
        }
        at.1
    };
    let read = (IggyNamespace::new(1, 2, 3), 6, PollingConsumer::Consumer(9, 6));
    assert_eq!(run(&[OffsetEvent::Decoded(false)]), OffsetStep::ReplyEmpty);
    assert_eq!(
        run(&[OffsetEvent::Decoded(true), OffsetEvent::Authorized(Some(3))]),
        OffsetStep::Deny(3)
    );
    assert_eq!(
        run(&[
            OffsetEvent::Decoded(true),
            OffsetEvent::Authorized(None),
            OffsetEvent::Resolved(Err(IggyError::InvalidIdentifier))
        ]),
        OffsetStep::ReplyEmpty
    );
    let resolved = [OffsetEvent::Decoded(true), OffsetEvent::Authorized(None), OffsetEvent::Resolved(Ok(read))];
    assert_eq!(run(&resolved), OffsetStep::Read(read.0, read.2));
    let with = |found| run(&[resolved[0], resolved[1], resolved[2], OffsetEvent::ReadDone(found)]);
    assert_eq!(with(None), OffsetStep::ReplyEmpty);
    assert_eq!(
        with(Some(PartitionReadReply::NotFound)),
        OffsetStep::ReplyEmpty
    );
    assert_eq!(
        with(Some(PartitionReadReply::ConsumerOffset {
            stored: None,
            current_offset: 20
        })),
        OffsetStep::ReplyEmpty
    );
    assert_eq!(
        with(Some(PartitionReadReply::ConsumerOffset {
            stored: Some(10),
            current_offset: 20
        })),
        OffsetStep::SendOffset {
            partition_id: 6,
            current_offset: 20,
            stored_offset: 10
        }
    );
}

#[test]
fn delete_of_segments_commits_or_asks_to_retry() {
    let namespace = IggyNamespace::new(1, 2, 3);
    let mut template = header(Operation::DeleteSegments, 0);
    template.cluster = 21;
    template.view = 22;
    template.release = 23;
    template.client = 77;
    template.session = 78;
    template.request = 24;
    let committed_as = truncate_header(template, 5, 6);
    assert_eq!(
        committed_as,
        RequestHeader {
            operation: Operation::TruncatePartition,
            client: 5,
            session: 6,
            ..template
        }
    );
    assert_eq!(committed_as.request, 24);
    let request = DeleteSegmentsRequest {
        partition_id: 3,
        segments_count: 4,
    };
    assert_eq!(
        plan_delete_segments(None, Ok(namespace)),
        DeleteStep::ReplyEmpty
    );
    assert_eq!(
        plan_delete_segments(Some(request), Err(IggyError::Other(1))),
        DeleteStep::ReplyEmpty
    );
    assert_eq!(
        resolve_delete_segments_truncate(&template, 5, 6, None, Ok(namespace), None),
        Err(IggyError::InvalidCommand)
    );
    assert_eq!(
        resolve_delete_segments_truncate(
            &template,
            5,
            6,
            None,
            Err(IggyError::Other(1)),
            None
        ),
        Err(IggyError::InvalidCommand)
    );
    assert_eq!(
        resolve_delete_segments_truncate(
            &template,
            5,
            6,
            Some(request),
            Err(IggyError::Other(1)),
            None
        ),
        Err(IggyError::Other(1))
    );
    assert_eq!(
        plan_delete_segments(Some(request), Ok(namespace)),
        DeleteStep::ResolveOffset {
            namespace,
            count: 4
        }
    );
    let answer = |up_to_offset, lagging| {
        Some(PartitionReadReply::SegmentDeleteOffset {
            up_to_offset,
            lagging,
        })
    };
    let resolve = |answer| {
        resolve_delete_segments_truncate(&template, 5, 6, Some(request), Ok(namespace), answer)
    };
    let truncate = |up_to_offset| {
        Ok(Truncate {
            header: committed_as,
            stream_id: 1,
            topic_id: 2,
            partition_id: 3,
            up_to_offset,
        })
    };
    assert_eq!(resolve(answer(Some(9), false)), truncate(9));
    assert_eq!(resolve(answer(Some(9), true)), truncate(9));
    assert_eq!(
        resolve(answer(None, true)),
        Err(IggyError::TransientNotAccepted)
    );
    assert_eq!(resolve(answer(None, false)), truncate(0));
    assert_eq!(resolve(None), truncate(0));
    assert_eq!(resolve(Some(PartitionReadReply::NotFound)), truncate(0));
    assert_eq!(
        on_delete_resolved(Err(IggyError::TransientNotAccepted)),
        DeleteStep::RejectTransient
    );
    assert_eq!(
        on_delete_resolved(Err(IggyError::InvalidCommand)),
        DeleteStep::ReplyEmpty
    );
    assert!(matches!(
        on_delete_resolved(truncate(9)),
        DeleteStep::Commit(_)
    ));
    assert_eq!(on_truncate_submitted(true), TruncateOutcome::ForwardReply);
    assert_eq!(on_truncate_submitted(false), TruncateOutcome::AwaitReplay);
}

#[test]
fn auto_commit_is_submitted_on_the_primary_only() {
    let status = PartitionStatus {
        primary: true,
        normal: true,
        syncing: false,
        covered: false,
    };
    assert_eq!(auto_commit_gate(Some(status)), AutoCommitGate::Submit);
    assert_eq!(auto_commit_gate(None), AutoCommitGate::NotPrimary);
    let covered = PartitionStatus {
        covered: true,
        ..status
    };
    assert_eq!(auto_commit_gate(Some(covered)), AutoCommitGate::Covered);
    for not_primary in [
        PartitionStatus {
            primary: false,
            ..covered
        },
        PartitionStatus {
            normal: false,
            ..status
        },
        PartitionStatus {
            syncing: true,
            ..status
        },
    ] {
        assert_eq!(
            auto_commit_gate(Some(not_primary)),
            AutoCommitGate::NotPrimary
        );
    }
}

#[test]
fn auto_commit_request_names_the_partition_and_the_reserved_client() {
    let applied = AutoCommitApplied {
        kind: 2,
        consumer_id: 5,
        offset: 70,
    };
    let request = auto_commit_store_request(IggyNamespace::new(1, 2, 3), &applied);
    assert!(matches!(
        request,
        Some(request) if request.stream_id == 1
            && request.topic_id == 2
            && request.partition_id == 3
            && request.kind == 2
            && request.consumer_id == 5
            && request.offset == 70
    ));
    assert!(
        auto_commit_store_request(IggyNamespace::new(1 << 32, 2, 3), &applied).is_none()
    );
    let built = build_auto_commit_request(30, u128::MAX, 40).expect("fits");
    assert_eq!(built.size, 286);
    assert_eq!(built.client, u128::MAX);
    assert_eq!((built.session, built.request, built.namespace), (1, 1, 40));
    assert_eq!(built.operation, Operation::StoreConsumerOffset2);
    assert_eq!(
        build_auto_commit_request(u32::MAX as usize - 255, 1, 1),
        Err(IggyError::InvalidConfiguration)
    );
}

#[test]
fn metadata_requests_reach_their_owner() {
    assert_eq!(owner_path(0), OwnerPath::InProcess);
    assert_eq!(owner_path(3), OwnerPath::Forward);
    assert_eq!(on_owner_reply(Some(Some(9))), Ok(9));
    assert_eq!(
        on_owner_reply(Some(None)),
        Err(MetadataSubmitError::Canceled)
    );
    assert_eq!(on_owner_reply(None), Err(MetadataSubmitError::Canceled));
    assert_eq!(on_owner_request_reply(Some(Some("reply"))), Some("reply"));
    assert_eq!(on_owner_request_reply::<&str>(Some(None)), None);
    assert_eq!(on_owner_request_reply::<&str>(None), None);
    let register = MetadataSubmit::Register {
        vsr_client_id: 1,
        user_id: 2,
    };
    assert_eq!(plan_metadata_submit(register), SubmitPlan::Propose(register));
    let request = MetadataSubmit::ClientRequest { decoded: true };
    assert_eq!(plan_metadata_submit(request), SubmitPlan::Propose(request));
    assert_eq!(
        plan_metadata_submit(MetadataSubmit::ClientRequest { decoded: false }),
        SubmitPlan::ReplyNone
    );
    assert_eq!(submit_reply(Ok(4)), Some(4));
    assert_eq!(submit_reply::<u64>(Err(MetadataSubmitError::Rejected(1))), None);
}

#[test]
fn partition_reads_say_what_was_found() {
    let not_found = ReadServing::Reply(PartitionReadReply::NotFound);
    let found = [
        (
            PartitionLookup::ConsumerOffset(Some((None, 5))),
            PartitionReadReply::ConsumerOffset {
                stored: None,
                current_offset: 5,
            },
        ),
        (
            PartitionLookup::GroupOffsetState(Some((Some(1), None))),
            PartitionReadReply::GroupOffsetState {
                last_polled: Some(1),
                committed: None,
            },
        ),
        (
            PartitionLookup::ClearGroupLastPolled(Some(())),
            PartitionReadReply::Ack,
        ),
        (
            PartitionLookup::SegmentDeleteOffset(Some((Some(7), true))),
            PartitionReadReply::SegmentDeleteOffset {
                up_to_offset: Some(7),
                lagging: true,
            },
        ),
    ];
    for (lookup, reply) in found {
        assert_eq!(serve_partition_read(lookup), ReadServing::Reply(reply));
    }
    let missing = [
        PartitionLookup::Poll(None),
        PartitionLookup::ConsumerOffset(None),
        PartitionLookup::GroupOffsetState(None),
        PartitionLookup::ClearGroupLastPolled(None),
        PartitionLookup::SegmentDeleteOffset(None),
    ];
    for lookup in missing {
        assert_eq!(serve_partition_read(lookup), not_found);
    }
    assert_eq!(
        serve_partition_read(PartitionLookup::Poll(Some(true))),
        ReadServing::SpawnIo
    );
    assert_eq!(
        serve_partition_read(PartitionLookup::Poll(Some(false))),
        ReadServing::ReplyResident
    );
}

#[test]
fn member_is_told_its_assignment() {
    assert_eq!(
        synced_assignment(Some(Some((3, vec![1, 2])))),
        Some((3, vec![1, 2]))
    );
    assert_eq!(synced_assignment(Some(None)), None);
    assert_eq!(synced_assignment(None), None);
}

#[test]
fn client_is_found_by_its_short_id() {
    let clients = [(1u128 << 64) + 7, (2u128 << 64) + 8, 7];
    assert_eq!(find_client(&clients, Some(7)), Some(0));
    assert_eq!(find_client(&clients, Some(8)), Some(1));
    assert_eq!(find_client(&clients, Some(9)), None);
    assert_eq!(find_client(&clients, None), None);
}

#[test]
fn memberships_are_shown_of_bound_clients_only() {
    let found = [(1, 2, 3), (4, 5, 6)];
    assert_eq!(
        client_memberships(Some(9), &found),
        vec![
            Membership {
                stream_id: 1,
                topic_id: 2,
                group_id: 3
            },
            Membership {
                stream_id: 4,
                topic_id: 5,
                group_id: 6
            },
        ]
    );
    assert!(client_memberships(None, &found).is_empty());
    assert!(client_memberships(Some(9), &[]).is_empty());
    assert!(is_group_member(Some(9), &found));
    assert!(!is_group_member(Some(9), &[]));
    assert!(!is_group_member(None, &found));
}

#[test]
fn oversized_snapshot_is_refused() {
    assert_eq!(MAX_MESSAGE_SIZE, 64 * 1024 * 1024);
    assert_eq!(
        snapshot_reply(Ok(MAX_MESSAGE_SIZE - 256)),
        SnapshotReply::SendArchive
    );
    assert_eq!(
        snapshot_reply(Ok(MAX_MESSAGE_SIZE - 255)),
        SnapshotReply::Deny(IggyError::SnapshotFileCompletionFailed)
    );
    assert_eq!(
        snapshot_reply(Err(IggyError::Other(3))),
        SnapshotReply::Deny(IggyError::Other(3))
    );
}

#[test]
fn first_unknown_snapshot_code_decides() {
    let error = IggyError::Other(1);
    let later = IggyError::Other(2);
    assert_eq!(decode_get_snapshot(None), Err(IggyError::InvalidCommand));
    assert_eq!(
        decode_get_snapshot(Some((Ok(1), vec![Ok(2), Ok(3)]))),
        Ok((1, vec![2, 3]))
    );
    assert_eq!(
        decode_get_snapshot(Some((Err(error), vec![Err(later)]))),
        Err(error)
    );
    assert_eq!(
        decode_get_snapshot(Some((Ok(1), vec![Ok(2), Err(error), Err(later)]))),
        Err(error)
    );
}
