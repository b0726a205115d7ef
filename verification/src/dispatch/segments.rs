//! The deletion of old segments.
//!
//! The owning shard turns the count of segments into an offset, and a trim to
//! that offset is committed as the client's own request, under its id, its
//! session and its request number. The request numbers must have no gap, so a delete that finds nothing commits as well. One
//! that cannot be decoded, or whose partition cannot be resolved, is answered
//! with an empty reply and commits nothing.
use crate::dispatch::serving::PartitionReadReply;
use crate::error::IggyError;
use crate::message::{Operation, RequestHeader};
use crate::namespace::IggyNamespace;
use vstd::prelude::*;

verus! {

/// The fields of a delete that its resolution depends on: the partition that
/// its namespace is looked up with, and how many of the oldest segments go.
#[derive(Debug, Clone, Copy, PartialEq, Eq, Structural)]
pub struct DeleteSegmentsRequest {
    pub partition_id: u32,
    pub segments_count: u32,
}

/// A trim to be committed.
#[derive(Debug, Clone, Copy, PartialEq, Eq, Structural)]
pub struct Truncate {
    /// Whose request the trim is committed as.
    pub header: RequestHeader,
    pub stream_id: u32,
    pub topic_id: u32,
    pub partition_id: u32,
    /// Everything below this offset goes.
    pub up_to_offset: u64,
}

/// What to do with a delete.
#[derive(Debug, Clone, Copy, PartialEq, Eq, Structural)]
pub enum DeleteStep {
    /// Ask the owning shard how far `count` segments reach.
    ResolveOffset { namespace: IggyNamespace, count: u32 },
    Commit(Truncate),
    /// Answer that the request may be sent again.
    RejectTransient,
    /// Answer with an empty reply.
    ReplyEmpty,
}

/// What to do with a delete that was decoded, or not, and whose partition was
/// found, or not.
pub open spec fn delete_step(
    decoded: Option<DeleteSegmentsRequest>,
    namespace: Result<IggyNamespace, IggyError>,
) -> DeleteStep {
    match (decoded, namespace) {
        (None, _) => DeleteStep::ReplyEmpty,
        (Some(_), Err(_)) => DeleteStep::ReplyEmpty,
        (Some(request), Ok(namespace)) => DeleteStep::ResolveOffset {
            namespace,
            count: request.segments_count,
        },
    }
}

/// Decides what to do with a delete.
pub fn plan_delete_segments(
    decoded: Option<DeleteSegmentsRequest>,
    namespace: Result<IggyNamespace, IggyError>,
) -> (step: DeleteStep)
    ensures
        step == delete_step(decoded, namespace),
{
    let request = match decoded {
        Some(request) => request,
        None => return DeleteStep::ReplyEmpty,
    };
    match namespace {
        Ok(namespace) => DeleteStep::ResolveOffset { namespace, count: request.segments_count },
        Err(_) => DeleteStep::ReplyEmpty,
    }
}

/// The header that a trim is committed under: cluster, view, release and request
/// number of the client's delete in `template`, and the client and session that
/// the transport is bound to. Whoever puts a body behind it restates the size.
pub open spec fn truncate_header_of(
    template: RequestHeader,
    client_id: u128,
    session: u64,
) -> RequestHeader {
    RequestHeader {
        operation: Operation::TruncatePartition,
        client: client_id,
        session,
        ..template
    }
}

/// The header that a trim, or the refusal of one, goes out under.
pub fn truncate_header(template: RequestHeader, client_id: u128, session: u64) -> (header:
    RequestHeader)
    ensures
        header == truncate_header_of(template, client_id, session),
{
    RequestHeader {
        operation: Operation::TruncatePartition,
        client: client_id,
        session,
        ..template
    }
}

/// The trim under `header` that the owning shard's answer asks for. A shard that is behind
/// may lack whole segments, so its finding none is no answer; on any other
/// answer, and on none at all, nothing is deleted.
pub open spec fn truncate_of(
    header: RequestHeader,
    namespace: IggyNamespace,
    answer: Option<PartitionReadReply>,
) -> Result<Truncate, IggyError> {
    let nothing = Truncate {
        header,
        stream_id: namespace.stream_id as u32,
        topic_id: namespace.topic_id as u32,
        partition_id: namespace.partition_id as u32,
        up_to_offset: 0,
    };
    match answer {
        Some(
            PartitionReadReply::SegmentDeleteOffset {
                up_to_offset: Some(up_to_offset),
                lagging: _,
            },
        ) => Ok(Truncate { up_to_offset, ..nothing }),
        Some(PartitionReadReply::SegmentDeleteOffset { up_to_offset: None, lagging: true }) => Err(
            IggyError::TransientNotAccepted,
        ),
        _ => Ok(nothing),
    }
}

/// The trim that commits a delete. A delete that cannot be decoded is an
/// invalid command, and one whose partition cannot be resolved fails with the
/// error of the lookup; neither is committed.
pub open spec fn resolved_delete(
    template: RequestHeader,
    client_id: u128,
    session: u64,
    decoded: Option<DeleteSegmentsRequest>,
    namespace: Result<IggyNamespace, IggyError>,
    answer: Option<PartitionReadReply>,
) -> Result<Truncate, IggyError> {
    match (decoded, namespace) {
        (None, _) => Err(IggyError::InvalidCommand),
        (Some(_), Err(error)) => Err(error),
        (Some(_), Ok(namespace)) => truncate_of(
            truncate_header_of(template, client_id, session),
            namespace,
            answer,
        ),
    }
}

/// Resolves a delete to the trim that commits it. `template` is the header of
/// the client's delete, `client_id` and `session` are what its transport is
/// bound to, and `answer` is what the owning shard says, where it was asked and
/// answered.
pub fn resolve_delete_segments_truncate(
    template: &RequestHeader,
    client_id: u128,
    session: u64,
    decoded: Option<DeleteSegmentsRequest>,
    namespace: Result<IggyNamespace, IggyError>,
    answer: Option<PartitionReadReply>,
) -> (truncate: Result<Truncate, IggyError>)
    ensures
        truncate == resolved_delete(*template, client_id, session, decoded, namespace, answer),
{
    if decoded.is_none() {
        return Err(IggyError::InvalidCommand);
    }
    let namespace = match namespace {
        Ok(namespace) => namespace,
        Err(error) => return Err(error),
    };
    let up_to_offset: u64 = match answer {
        Some(PartitionReadReply::SegmentDeleteOffset { up_to_offset: Some(offset), lagging: _ }) =>
            offset,
        Some(PartitionReadReply::SegmentDeleteOffset { up_to_offset: None, lagging: true }) =>
            return Err(IggyError::TransientNotAccepted),
        _ => 0,
    };
    Ok(
        Truncate {
            header: truncate_header(*template, client_id, session),
            stream_id: #[verifier::truncate]
            (namespace.stream_id as u32),
            topic_id: #[verifier::truncate]
            (namespace.topic_id as u32),
            partition_id: #[verifier::truncate]
            (namespace.partition_id as u32),
            up_to_offset,
        },
    )
}

/// What follows on a resolved trim: a commit, or the answer that the client is
/// to try again.
pub open spec fn after_resolution(truncate: Result<Truncate, IggyError>) -> DeleteStep {
    match truncate {
        Ok(truncate) => DeleteStep::Commit(truncate),
        Err(IggyError::TransientNotAccepted) => DeleteStep::RejectTransient,
        Err(_) => DeleteStep::ReplyEmpty,
    }
}

/// Decides what follows on a resolved trim.
pub fn on_delete_resolved(truncate: Result<Truncate, IggyError>) -> (step: DeleteStep)
    ensures
        step == after_resolution(truncate),
{
    match truncate {
        Ok(truncate) => DeleteStep::Commit(truncate),
        Err(IggyError::TransientNotAccepted) => DeleteStep::RejectTransient,
        Err(_) => DeleteStep::ReplyEmpty,
    }
}

/// What follows on the submit of a trim.
#[derive(Debug, Clone, Copy, PartialEq, Eq, Structural)]
pub enum TruncateOutcome {
    /// Send the committed reply as it is.
    ForwardReply,
    /// Answer nothing: the client sends the request again.
    AwaitReplay,
}

/// What follows on the submit of a trim, which brought a reply back or not.
pub fn on_truncate_submitted(replied: bool) -> (outcome: TruncateOutcome)
    ensures
        outcome == (if replied {
            TruncateOutcome::ForwardReply
        } else {
            TruncateOutcome::AwaitReplay
        }),
{
    if replied {
        TruncateOutcome::ForwardReply
    } else {
        TruncateOutcome::AwaitReplay
    }
}

/// A delete that could be decoded and whose partition could be resolved is
/// committed, or the client is told to send it again; it is never acknowledged
/// without a commit.
pub proof fn law_decoded_delete_leaves_no_gap(
    template: RequestHeader,
    client_id: u128,
    session: u64,
    request: DeleteSegmentsRequest,
    namespace: IggyNamespace,
    answer: Option<PartitionReadReply>,
)
    ensures
        delete_step(Some(request), Ok(namespace)) == (DeleteStep::ResolveOffset {
            namespace,
            count: request.segments_count,
        }),
        ({
            let step = after_resolution(
                resolved_delete(
                    template,
                    client_id,
                    session,
                    Some(request),
                    Ok(namespace),
                    answer,
                ),
            );
            step is Commit || step is RejectTransient
        }),
{
}

/// A delete is resolved with the owning shard exactly where it could be
/// decoded and its partition was found. Any other is answered with an empty
/// reply, its resolution is an error, and nothing is committed for it.
pub proof fn law_unresolved_delete_commits_nothing(
    template: RequestHeader,
    client_id: u128,
    session: u64,
    decoded: Option<DeleteSegmentsRequest>,
    namespace: Result<IggyNamespace, IggyError>,
    answer: Option<PartitionReadReply>,
)
    ensures
        delete_step(decoded, namespace) is ResolveOffset <==> decoded is Some && namespace is Ok,
        decoded is None || namespace is Err ==> {
            &&& delete_step(decoded, namespace) is ReplyEmpty
            &&& resolved_delete(template, client_id, session, decoded, namespace, answer) is Err
        },
{
}

/// Whatever a delete resolves to is committed as the client's own request: under
/// the client and session that its transport is bound to, with the request
/// number, cluster, view and release of the delete.
pub proof fn law_trim_commits_as_the_client(
    template: RequestHeader,
    client_id: u128,
    session: u64,
    decoded: Option<DeleteSegmentsRequest>,
    namespace: Result<IggyNamespace, IggyError>,
    answer: Option<PartitionReadReply>,
)
    ensures
        resolved_delete(template, client_id, session, decoded, namespace, answer) matches Ok(
            truncate,
        ) ==> {
            &&& truncate.header.operation is TruncatePartition
            &&& truncate.header.client == client_id
            &&& truncate.header.session == session
            &&& truncate.header.request == template.request
            &&& truncate.header.cluster == template.cluster
            &&& truncate.header.view == template.view
            &&& truncate.header.release == template.release
        },
{
}

/// A delete trims to no other offset than the one that the owning shard found:
/// where it found none, nothing is trimmed, and where the shard is behind,
/// nothing is committed.
pub proof fn law_delete_trims_to_what_was_found(
    header: RequestHeader,
    namespace: IggyNamespace,
    answer: Option<PartitionReadReply>,
)
    ensures
        match truncate_of(header, namespace, answer) {
            Ok(truncate) => truncate.up_to_offset != 0 ==> (answer matches Some(
                PartitionReadReply::SegmentDeleteOffset { up_to_offset, .. },
            ) && up_to_offset == Some(truncate.up_to_offset)),
            Err(_) => answer == Some(
                PartitionReadReply::SegmentDeleteOffset { up_to_offset: None, lagging: true },
            ),
        },
{
}

} // verus!
