//! Requests to the shard that runs the metadata consensus.
use vstd::prelude::*;

verus! {

/// The shard that runs the metadata consensus.
pub const METADATA_OWNER: u16 = 0;

/// How a shard reaches the metadata consensus.
#[derive(Debug, Clone, Copy, PartialEq, Eq, Structural)]
pub enum OwnerPath {
    /// It runs on this shard.
    InProcess,
    /// Forward the request to the owner and wait for its reply.
    Forward,
}

/// How a shard reaches the metadata consensus.
pub fn owner_path(shard_id: u16) -> (path: OwnerPath)
    ensures
        path == (if shard_id == METADATA_OWNER {
            OwnerPath::InProcess
        } else {
            OwnerPath::Forward
        }),
{
    if shard_id == METADATA_OWNER {
        OwnerPath::InProcess
    } else {
        OwnerPath::Forward
    }
}

/// Why a submit came to nothing.
#[derive(Debug, Clone, Copy, PartialEq, Eq, Structural)]
pub enum MetadataSubmitError {
    /// The owner dropped the request or could not commit it; the client sends
    /// it again.
    Canceled,
    /// What the consensus on this shard answered, by its code.
    Rejected(u32),
}

/// What came back for a forwarded request: none where the owner is gone.
pub type OwnerReply<T> = Option<Option<T>>;

/// What a forwarded registration or logout comes to.
pub open spec fn forwarded_result(reply: OwnerReply<u64>) -> Result<u64, MetadataSubmitError> {
    match reply {
        Some(Some(value)) => Ok(value),
        _ => Err(MetadataSubmitError::Canceled),
    }
}

/// What a forwarded registration or logout comes to.
pub fn on_owner_reply(reply: OwnerReply<u64>) -> (result: Result<u64, MetadataSubmitError>)
    ensures
        result == forwarded_result(reply),
{
    match reply {
        Some(Some(value)) => Ok(value),
        _ => Err(MetadataSubmitError::Canceled),
    }
}

/// What a forwarded client request comes to: its committed reply, or nothing.
pub fn on_owner_request_reply<T>(reply: OwnerReply<T>) -> (committed: Option<T>)
    ensures
        committed == (match reply {
            Some(inner) => inner,
            None => None,
        }),
{
    match reply {
        Some(inner) => inner,
        None => None,
    }
}

/// A request that another shard forwarded to the owner.
#[derive(Debug, Clone, Copy, PartialEq, Eq, Structural)]
pub enum MetadataSubmit {
    Register { vsr_client_id: u128, user_id: u32 },
    Logout { vsr_client_id: u128, session: u64, request: u64 },
    /// A client's own request; whether its header could be decoded.
    ClientRequest { decoded: bool },
    CompleteRevocation {
        stream_id: u32,
        topic_id: u32,
        group_id: u64,
        source_client_id: u128,
        partition_id: u32,
    },
}

/// What the owner does with a forwarded request.
#[derive(Debug, Clone, Copy, PartialEq, Eq, Structural)]
pub enum SubmitPlan {
    /// Submit it to the consensus, then reply with what committed.
    Propose(MetadataSubmit),
    /// Reply that nothing committed.
    ReplyNone,
}

/// Decides what the owner does with a forwarded request.
pub fn plan_metadata_submit(submit: MetadataSubmit) -> (plan: SubmitPlan)
    ensures
        plan == (if submit == (MetadataSubmit::ClientRequest { decoded: false }) {
            SubmitPlan::ReplyNone
        } else {
            SubmitPlan::Propose(submit)
        }),
{
    match submit {
        MetadataSubmit::ClientRequest { decoded } => if decoded {
            SubmitPlan::Propose(submit)
        } else {
            SubmitPlan::ReplyNone
        },
        _ => SubmitPlan::Propose(submit),
    }
}

/// The owner's reply: what committed, or nothing where the submit failed. The
/// shard that waits is always answered.
pub fn submit_reply<T>(committed: Result<T, MetadataSubmitError>) -> (reply: Option<T>)
    ensures
        reply == (match committed {
            Ok(value) => Some(value),
            Err(_) => None,
        }),
{
    match committed {
        Ok(value) => Some(value),
        Err(_) => None,
    }
}

/// A forwarded registration or logout gives what the consensus committed, and
/// every failure on the way is the same transient one.
pub proof fn law_forwarding_keeps_the_committed_value(
    committed: Result<u64, MetadataSubmitError>,
    owner_gone: bool,
)
    ensures
        ({
            let reply: OwnerReply<u64> = if owner_gone {
                None
            } else {
                Some(
                    match committed {
                        Ok(value) => Some(value),
                        Err(_) => None,
                    },
                )
            };
            forwarded_result(reply) == (if !owner_gone && committed is Ok {
                committed
            } else {
                Err(MetadataSubmitError::Canceled)
            })
        }),
{
}

} // verus!
