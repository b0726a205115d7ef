//! Offsets that a poll commits on its own.
use crate::error::IggyError;
use crate::message::{Operation, RequestHeader, HEADER_SIZE};
use crate::namespace::IggyNamespace;
use vstd::prelude::*;

verus! {

/// What this node knows of the partition whose offset was auto-committed.
#[derive(Debug, Clone, Copy, PartialEq, Eq, Structural)]
pub struct PartitionStatus {
    pub primary: bool,
    pub normal: bool,
    pub syncing: bool,
    /// Whether the committed offset is at least the one to commit.
    pub covered: bool,
}

/// Whether an auto-committed offset is replicated.
#[derive(Debug, Clone, Copy, PartialEq, Eq, Structural)]
pub enum AutoCommitGate {
    Submit,
    /// The committed offset covers it already.
    Covered,
    /// Only the primary takes writes; the offset is dropped.
    NotPrimary,
}

/// Whether an auto-committed offset is replicated. Without the partition there
/// is no primary.
pub open spec fn gate_of(partition: Option<PartitionStatus>) -> AutoCommitGate {
    match partition {
        None => AutoCommitGate::NotPrimary,
        Some(status) => if !status.primary || !status.normal || status.syncing {
            AutoCommitGate::NotPrimary
        } else if status.covered {
            AutoCommitGate::Covered
        } else {
            AutoCommitGate::Submit
        },
    }
}

/// Decides whether an auto-committed offset is replicated.
pub fn auto_commit_gate(partition: Option<PartitionStatus>) -> (gate: AutoCommitGate)
    ensures
        gate == gate_of(partition),
{
    let status = match partition {
        Some(status) => status,
        None => return AutoCommitGate::NotPrimary,
    };
    if !(status.primary && status.normal && !status.syncing) {
        AutoCommitGate::NotPrimary
    } else if status.covered {
        AutoCommitGate::Covered
    } else {
        AutoCommitGate::Submit
    }
}

/// An offset that a poll committed, and for whom.
#[derive(Debug, Clone, Copy, PartialEq, Eq, Structural)]
pub struct AutoCommitApplied {
    /// The code of a consumer or of a group.
    pub kind: u8,
    pub consumer_id: u32,
    pub offset: u64,
}

/// The fields of the request that stores an auto-committed offset.
#[derive(Debug, Clone, Copy, PartialEq, Eq, Structural)]
pub struct StoreOffsetRequest {
    pub kind: u8,
    pub consumer_id: u32,
    pub stream_id: u32,
    pub topic_id: u32,
    pub partition_id: u32,
    pub offset: u64,
}

/// The request that stores an auto-committed offset; none where an id of the
/// namespace does not fit its field.
pub open spec fn store_request_of(namespace: IggyNamespace, applied: AutoCommitApplied) -> Option<
    StoreOffsetRequest,
> {
    if namespace.stream_id > u32::MAX || namespace.topic_id > u32::MAX || namespace.partition_id
        > u32::MAX {
        None
    } else {
        Some(
            StoreOffsetRequest {
                kind: applied.kind,
                consumer_id: applied.consumer_id,
                stream_id: namespace.stream_id as u32,
                topic_id: namespace.topic_id as u32,
                partition_id: namespace.partition_id as u32,
                offset: applied.offset,
            },
        )
    }
}

/// The request that stores an auto-committed offset.
pub fn auto_commit_store_request(
    namespace: IggyNamespace,
    applied: &AutoCommitApplied,
) -> (request: Option<StoreOffsetRequest>)
    ensures
        request == store_request_of(namespace, *applied),
{
    let limit: usize = u32::MAX as usize;
    if namespace.stream_id > limit || namespace.topic_id > limit || namespace.partition_id
        > limit {
        return None;
    }
    Some(
        StoreOffsetRequest {
            kind: applied.kind,
            consumer_id: applied.consumer_id,
            stream_id: namespace.stream_id as u32,
            topic_id: namespace.topic_id as u32,
            partition_id: namespace.partition_id as u32,
            offset: applied.offset,
        },
    )
}

/// The header in front of the encoded request. The reserved client keeps the
/// commit from being answered; session and request number only have to be
/// non-zero.
pub open spec fn auto_commit_header_of(
    body_len: nat,
    auto_commit_client: u128,
    namespace_raw: u64,
) -> Result<RequestHeader, IggyError> {
    if HEADER_SIZE + body_len > u32::MAX {
        Err(IggyError::InvalidConfiguration)
    } else {
        Ok(
            RequestHeader {
                cluster: 0,
                view: 0,
                release: 0,
                operation: Operation::StoreConsumerOffset2,
                size: (HEADER_SIZE + body_len) as u32,
                client: auto_commit_client,
                session: 1,
                request: 1,
                namespace: namespace_raw,
                user_id: 0,
                code: 0,
            },
        )
    }
}

/// The header in front of the encoded request, whose body has `body_len`
/// bytes.
pub fn build_auto_commit_request(
    body_len: usize,
    auto_commit_client: u128,
    namespace_raw: u64,
) -> (header: Result<RequestHeader, IggyError>)
    ensures
        header == auto_commit_header_of(body_len as nat, auto_commit_client, namespace_raw),
{
    let len: u64 = body_len as u64;
    if len > 0xffff_ffff - 256 {
        return Err(IggyError::InvalidConfiguration);
    }
    Ok(
        RequestHeader {
            cluster: 0,
            view: 0,
            release: 0,
            operation: Operation::StoreConsumerOffset2,
            size: (256 + len) as u32,
            client: auto_commit_client,
            session: 1,
            request: 1,
            namespace: namespace_raw,
            user_id: 0,
            code: 0,
        },
    )
}

/// An offset that the committed one covers is never submitted again, and none
/// is submitted on a node that is not the primary.
pub proof fn law_only_new_offsets_of_the_primary_are_submitted(partition: Option<PartitionStatus>)
    ensures
        gate_of(partition) is Submit <==> {
            &&& partition matches Some(status)
            &&& status.primary && status.normal && !status.syncing && !status.covered
        },
{
}

} // verus!
