//! A request on its way to a partition's own consensus group.
//!
//! Every failure before the dispatch is answered: the client reads replies in
//! lockstep, and a request that is dropped in silence blocks all that follow.
use crate::error::IggyError;
use crate::message::RequestHeader;
use vstd::prelude::*;

verus! {

/// What a partition request waits for.
#[derive(Debug, Clone, Copy, PartialEq, Eq, Structural)]
pub enum PartitionStage {
    Resolve,
    /// The resolved namespace goes along from here on.
    Authorize(u64),
    AwaitRoutable(u64),
    Rewrite(u64),
    Over,
}

/// What came of the step that a partition request waited for.
#[derive(Debug, Clone, Copy)]
pub enum PartitionEvent {
    /// The namespace of the stream, topic and partition that the body names.
    Resolved(Result<u64, IggyError>),
    /// The status of a refusal, where the user may not do this.
    Authorized(Option<u32>),
    /// Whether the namespace became routable in time.
    Routable(bool),
    /// The header of the request with its consumer id rewritten.
    Rewritten(Result<RequestHeader, IggyError>),
}

/// What to do next with a partition request.
#[derive(Debug, Clone, Copy, PartialEq, Eq, Structural)]
pub enum PartitionStep {
    Authorize(u64),
    AwaitRoutable(u64),
    Rewrite,
    /// Hand the request, under this header, to the shard that owns its
    /// namespace.
    Dispatch(RequestHeader),
    ReplyEmpty,
    /// Answer with the status and an empty body.
    Deny(u32),
}

/// Whether `event` is what `stage` waits for.
pub open spec fn partition_expects(stage: PartitionStage, event: PartitionEvent) -> bool {
    match stage {
        PartitionStage::Resolve => event is Resolved,
        PartitionStage::Authorize(_) => event is Authorized,
        PartitionStage::AwaitRoutable(_) => event is Routable,
        PartitionStage::Rewrite(_) => event is Rewritten,
        PartitionStage::Over => false,
    }
}

/// The header of a partition request as it is dispatched. The partition
/// answers the transport, so that is its client. Session and request number
/// only have to be non-zero.
pub open spec fn dispatched_header(
    header: RequestHeader,
    namespace: u64,
    transport_client_id: u128,
    bound_session: u64,
) -> RequestHeader {
    RequestHeader {
        namespace,
        client: transport_client_id,
        session: bound_session,
        request: if header.request == 0 {
            1
        } else {
            header.request
        },
        ..header
    }
}

/// The header of a partition request as it is dispatched.
pub fn partition_request_header(
    header: RequestHeader,
    namespace: u64,
    transport_client_id: u128,
    bound_session: u64,
) -> (dispatched: RequestHeader)
    ensures
        dispatched == dispatched_header(header, namespace, transport_client_id, bound_session),
{
    let mut dispatched: RequestHeader = header;
    dispatched.namespace = namespace;
    dispatched.client = transport_client_id;
    dispatched.session = bound_session;
    dispatched.request = if header.request == 0 {
        1
    } else {
        header.request
    };
    dispatched
}

/// What follows on `event`.
pub open spec fn partition_next(
    stage: PartitionStage,
    event: PartitionEvent,
    transport_client_id: u128,
    bound_session: u64,
) -> (PartitionStage, PartitionStep) {
    match (stage, event) {
        (PartitionStage::Resolve, PartitionEvent::Resolved(Ok(namespace))) => (
            PartitionStage::Authorize(namespace),
            PartitionStep::Authorize(namespace),
        ),
        (PartitionStage::Authorize(namespace), PartitionEvent::Authorized(None)) => (
            PartitionStage::AwaitRoutable(namespace),
            PartitionStep::AwaitRoutable(namespace),
        ),
        (PartitionStage::Authorize(_), PartitionEvent::Authorized(Some(status))) => (
            PartitionStage::Over,
            PartitionStep::Deny(status),
        ),
        (PartitionStage::AwaitRoutable(namespace), PartitionEvent::Routable(true)) => (
            PartitionStage::Rewrite(namespace),
            PartitionStep::Rewrite,
        ),
        (PartitionStage::Rewrite(namespace), PartitionEvent::Rewritten(Ok(header))) => (
            PartitionStage::Over,
            PartitionStep::Dispatch(
                dispatched_header(header, namespace, transport_client_id, bound_session),
            ),
        ),
        _ => (PartitionStage::Over, PartitionStep::ReplyEmpty),
    }
}

/// Decides what follows on `event`.
pub fn on_partition_request(
    stage: PartitionStage,
    event: PartitionEvent,
    transport_client_id: u128,
    bound_session: u64,
) -> (next: (PartitionStage, PartitionStep))
    requires
        partition_expects(stage, event),
    ensures
        next == partition_next(stage, event, transport_client_id, bound_session),
{
    match stage {
        PartitionStage::Resolve => match event {
            PartitionEvent::Resolved(Ok(namespace)) => (
                PartitionStage::Authorize(namespace),
                PartitionStep::Authorize(namespace),
            ),
            _ => (PartitionStage::Over, PartitionStep::ReplyEmpty),
        },
        PartitionStage::Authorize(namespace) => match event {
            PartitionEvent::Authorized(Some(status)) => (
                PartitionStage::Over,
                PartitionStep::Deny(status),
            ),
            _ => (
                PartitionStage::AwaitRoutable(namespace),
                PartitionStep::AwaitRoutable(namespace),
            ),
        },
        PartitionStage::AwaitRoutable(namespace) => match event {
            PartitionEvent::Routable(true) => (
                PartitionStage::Rewrite(namespace),
                PartitionStep::Rewrite,
            ),
            _ => (PartitionStage::Over, PartitionStep::ReplyEmpty),
        },
        PartitionStage::Rewrite(namespace) => match event {
            PartitionEvent::Rewritten(Ok(header)) => (
                PartitionStage::Over,
                PartitionStep::Dispatch(
                    partition_request_header(
                        header,
                        namespace,
                        transport_client_id,
                        bound_session,
                    ),
                ),
            ),
            _ => (PartitionStage::Over, PartitionStep::ReplyEmpty),
        },
        PartitionStage::Over => (PartitionStage::Over, PartitionStep::ReplyEmpty),
    }
}

/// How a partition request ends, given what comes of each step.
pub open spec fn partition_outcome(
    resolved: Result<u64, IggyError>,
    authorized: Option<u32>,
    routable: bool,
    rewritten: Result<RequestHeader, IggyError>,
    transport_client_id: u128,
    bound_session: u64,
) -> PartitionStep {
    if resolved is Err {
        PartitionStep::ReplyEmpty
    } else if authorized is Some {
        PartitionStep::Deny(authorized->0)
    } else if !routable || rewritten is Err {
        PartitionStep::ReplyEmpty
    } else {
        PartitionStep::Dispatch(
            dispatched_header(
                rewritten->Ok_0,
                resolved->Ok_0,
                transport_client_id,
                bound_session,
            ),
        )
    }
}

/// Feeding the steps' results in order, as far as the flow asks for them, ends
/// as the outcome says. The request is dispatched or answered, never dropped,
/// and it is dispatched only where it was authorized.
pub proof fn law_partition_request_is_dispatched_or_answered(
    resolved: Result<u64, IggyError>,
    authorized: Option<u32>,
    routable: bool,
    rewritten: Result<RequestHeader, IggyError>,
    transport_client_id: u128,
    bound_session: u64,
)
    ensures
        ({
            let next = |at: (PartitionStage, PartitionStep), event: PartitionEvent|
                if at.0 is Over {
                    at
                } else {
                    partition_next(at.0, event, transport_client_id, bound_session)
                };
            let first = partition_next(
                PartitionStage::Resolve,
                PartitionEvent::Resolved(resolved),
                transport_client_id,
                bound_session,
            );
            let second = next(first, PartitionEvent::Authorized(authorized));
            let third = next(second, PartitionEvent::Routable(routable));
            let last = next(third, PartitionEvent::Rewritten(rewritten));
            &&& last.0 is Over
            &&& last.1 == partition_outcome(
                resolved,
                authorized,
                routable,
                rewritten,
                transport_client_id,
                bound_session,
            )
            &&& last.1 is Dispatch || last.1 is ReplyEmpty || last.1 is Deny
            &&& last.1 is Dispatch ==> authorized is None
        }),
{
}

/// A dispatched request has a session and a number that are not zero, where
/// the bound session is not.
pub proof fn law_dispatched_header_is_valid(
    header: RequestHeader,
    namespace: u64,
    transport_client_id: u128,
    bound_session: u64,
)
    requires
        bound_session > 0,
    ensures
        ({
            let dispatched = dispatched_header(
                header,
                namespace,
                transport_client_id,
                bound_session,
            );
            dispatched.session > 0 && dispatched.request > 0 && dispatched.size == header.size
                && dispatched.operation == header.operation
        }),
{
}

} // verus!
