//! Whom a reply or an eviction is addressed to.
use crate::dispatch::sessions::EvictionReason;
use crate::message::RequestHeader;
use vstd::prelude::*;

verus! {

/// What is answered.
#[derive(Debug, Clone, Copy, PartialEq, Eq, Structural)]
pub enum ReplyKind {
    /// A replicated request without a session.
    Unbound,
    /// A partition request that cannot be routed.
    EmptyPartition,
    /// A malformed password request.
    PasswordDenied,
    /// A read that is served without consensus.
    Read,
    /// A delete of segments that cannot be decoded, from this session.
    DeleteSegments { session: u64 },
    /// A logout of this client and session.
    Logout { vsr_client_id: u128, session: u64 },
}

/// The client and the session that a reply names.
#[derive(Debug, Clone, Copy, PartialEq, Eq, Structural)]
pub struct ReplyAddress {
    pub client: u128,
    pub session: u64,
}

/// The client and the session that a reply names.
pub open spec fn address_of(
    kind: ReplyKind,
    header: RequestHeader,
    transport_client_id: u128,
) -> ReplyAddress {
    match kind {
        ReplyKind::Unbound | ReplyKind::EmptyPartition | ReplyKind::PasswordDenied => ReplyAddress {
            client: transport_client_id,
            session: 0,
        },
        ReplyKind::Read => ReplyAddress { client: header.client, session: header.session },
        ReplyKind::DeleteSegments { session } => ReplyAddress {
            client: transport_client_id,
            session,
        },
        ReplyKind::Logout { vsr_client_id, session } => ReplyAddress {
            client: vsr_client_id,
            session,
        },
    }
}

/// The client and the session that a reply names.
pub fn reply_address(
    kind: ReplyKind,
    header: &RequestHeader,
    transport_client_id: u128,
) -> (address: ReplyAddress)
    ensures
        address == address_of(kind, *header, transport_client_id),
{
    match kind {
        ReplyKind::Unbound => ReplyAddress { client: transport_client_id, session: 0 },
        ReplyKind::EmptyPartition => ReplyAddress { client: transport_client_id, session: 0 },
        ReplyKind::PasswordDenied => ReplyAddress { client: transport_client_id, session: 0 },
        ReplyKind::Read => ReplyAddress { client: header.client, session: header.session },
        ReplyKind::DeleteSegments { session } => ReplyAddress {
            client: transport_client_id,
            session,
        },
        ReplyKind::Logout { vsr_client_id, session } => ReplyAddress {
            client: vsr_client_id,
            session,
        },
    }
}

/// The client that an eviction names: where a login is refused, the one that
/// it would have registered, and else the transport.
pub fn evicted_client(
    reason: EvictionReason,
    vsr_client_id: u128,
    transport_client_id: u128,
) -> (client: u128)
    ensures
        client == (match reason {
            EvictionReason::MalformedLogin | EvictionReason::IncompatibleProtocol => vsr_client_id,
            EvictionReason::NoSession | EvictionReason::StaleClient => transport_client_id,
        }),
{
    match reason {
        EvictionReason::MalformedLogin => vsr_client_id,
        EvictionReason::IncompatibleProtocol => vsr_client_id,
        EvictionReason::NoSession => transport_client_id,
        EvictionReason::StaleClient => transport_client_id,
    }
}

} // verus!
