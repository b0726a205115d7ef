//! Which way a request goes.
use crate::dispatch::sessions::EvictionReason;
use crate::error::IggyError;
use crate::message::{Operation, RequestHeader};
use vstd::prelude::*;

verus! {

/// The codes of the non-replicated commands that a rule here tells apart.
#[derive(Debug, Clone, Copy, PartialEq, Eq, Structural)]
pub struct CommandCodes {
    pub ping: u32,
    pub get_cluster_metadata: u32,
    pub login_user: u32,
    pub login_with_personal_access_token: u32,
    pub get_me: u32,
    pub get_personal_access_tokens: u32,
    pub get_clients: u32,
    pub get_client: u32,
    pub get_snapshot_file: u32,
    pub poll_messages: u32,
    pub get_consumer_offset: u32,
    pub sync_consumer_group: u32,
}

/// Which way a client's request goes.
#[derive(Debug, Clone, Copy, PartialEq, Eq, Structural)]
pub enum Route {
    /// A login command that is not served: evict the client as malformed.
    RejectLegacyLogin,
    /// A read without a session: evict the client.
    RejectUnauthenticated,
    /// A read that is served without consensus.
    NonReplicated,
    LoginRegister,
    Logout,
    /// A replicated request without a session: answer it with an empty reply,
    /// so that the client fails at once.
    ReplyEmptyUnbound,
    DeleteSegments,
    /// A request for a partition's own consensus group.
    Partition,
    /// A request for the metadata consensus group.
    Replicated,
}

impl CommandCodes {
    /// Whether `code` is a login that the register handshake replaced.
    pub open spec fn is_legacy_login(self, code: u32) -> bool {
        code == self.login_user || code == self.login_with_personal_access_token
    }

    /// Whether `code` is served without a session.
    pub open spec fn is_allowed_pre_auth(self, code: u32) -> bool {
        code == self.ping || code == self.get_cluster_metadata
    }
}

/// Which way a request goes that came over a transport which is, or is not,
/// bound to a session.
pub open spec fn route_for(header: RequestHeader, bound: bool, codes: CommandCodes) -> Route {
    match header.operation {
        Operation::NonReplicated => if codes.is_legacy_login(header.code) {
            Route::RejectLegacyLogin
        } else if !bound && !codes.is_allowed_pre_auth(header.code) {
            Route::RejectUnauthenticated
        } else {
            Route::NonReplicated
        },
        Operation::Logout => Route::Logout,
        operation => if operation is Register && header.session == 0 && header.request == 0 {
            Route::LoginRegister
        } else if !bound {
            Route::ReplyEmptyUnbound
        } else if operation is DeleteSegments {
            Route::DeleteSegments
        } else if operation.on_partition() {
            Route::Partition
        } else {
            Route::Replicated
        },
    }
}

/// Decides which way a request goes.
pub fn route_client_request(header: &RequestHeader, bound: bool, codes: &CommandCodes) -> (route:
    Route)
    ensures
        route == route_for(*header, bound, *codes),
{
    if header.operation == Operation::NonReplicated {
        let code: u32 = header.code;
        if code == codes.login_user || code == codes.login_with_personal_access_token {
            return Route::RejectLegacyLogin;
        }
        let allowed_pre_auth: bool = code == codes.ping || code == codes.get_cluster_metadata;
        if !allowed_pre_auth && !bound {
            return Route::RejectUnauthenticated;
        }
        return Route::NonReplicated;
    }
    if header.operation == Operation::Register && header.session == 0 && header.request == 0 {
        return Route::LoginRegister;
    }
    if header.operation == Operation::Logout {
        return Route::Logout;
    }
    if !bound {
        return Route::ReplyEmptyUnbound;
    }
    if header.operation == Operation::DeleteSegments {
        return Route::DeleteSegments;
    }
    if header.operation.is_partition() {
        return Route::Partition;
    }
    Route::Replicated
}

/// The reason that a refused client is evicted with; none where the route does
/// not refuse it.
pub fn refusal_reason(route: Route) -> (reason: Option<EvictionReason>)
    ensures
        reason == (match route {
            Route::RejectLegacyLogin => Some(EvictionReason::MalformedLogin),
            Route::RejectUnauthenticated => Some(EvictionReason::NoSession),
            _ => None,
        }),
{
    match route {
        Route::RejectLegacyLogin => Some(EvictionReason::MalformedLogin),
        Route::RejectUnauthenticated => Some(EvictionReason::NoSession),
        _ => None,
    }
}

/// The reads that are served without consensus.
#[derive(Debug, Clone, Copy, PartialEq, Eq, Structural)]
pub enum NonReplicatedRead {
    Ping,
    GetMe,
    GetPersonalAccessTokens,
    GetClients,
    GetClient,
    GetSnapshot,
    PollMessages,
    GetConsumerOffset,
    SyncConsumerGroup,
    /// A read that the shared response builder serves.
    Default,
}

/// Who must allow a read before it is served.
#[derive(Debug, Clone, Copy, PartialEq, Eq, Structural)]
pub enum ReadGate {
    /// The read concerns the caller alone, or everyone may make it.
    Open,
    /// A right of the user as such.
    User,
    /// A right of the user on the stream and the topic, once the request is
    /// decoded.
    Partition,
    /// The right that the command asks for.
    Command,
}

/// The read that `code` asks for. Where codes coincide, the first named counts.
pub open spec fn read_for(code: u32, codes: CommandCodes) -> NonReplicatedRead {
    if code == codes.ping {
        NonReplicatedRead::Ping
    } else if code == codes.get_me {
        NonReplicatedRead::GetMe
    } else if code == codes.get_personal_access_tokens {
        NonReplicatedRead::GetPersonalAccessTokens
    } else if code == codes.get_clients {
        NonReplicatedRead::GetClients
    } else if code == codes.get_client {
        NonReplicatedRead::GetClient
    } else if code == codes.get_snapshot_file {
        NonReplicatedRead::GetSnapshot
    } else if code == codes.poll_messages {
        NonReplicatedRead::PollMessages
    } else if code == codes.get_consumer_offset {
        NonReplicatedRead::GetConsumerOffset
    } else if code == codes.sync_consumer_group {
        NonReplicatedRead::SyncConsumerGroup
    } else {
        NonReplicatedRead::Default
    }
}

/// Decides which read `code` asks for.
pub fn classify_read(code: u32, codes: &CommandCodes) -> (read: NonReplicatedRead)
    ensures
        read == read_for(code, *codes),
{
    if code == codes.ping {
        NonReplicatedRead::Ping
    } else if code == codes.get_me {
        NonReplicatedRead::GetMe
    } else if code == codes.get_personal_access_tokens {
        NonReplicatedRead::GetPersonalAccessTokens
    } else if code == codes.get_clients {
        NonReplicatedRead::GetClients
    } else if code == codes.get_client {
        NonReplicatedRead::GetClient
    } else if code == codes.get_snapshot_file {
        NonReplicatedRead::GetSnapshot
    } else if code == codes.poll_messages {
        NonReplicatedRead::PollMessages
    } else if code == codes.get_consumer_offset {
        NonReplicatedRead::GetConsumerOffset
    } else if code == codes.sync_consumer_group {
        NonReplicatedRead::SyncConsumerGroup
    } else {
        NonReplicatedRead::Default
    }
}

/// Who must allow a read.
pub open spec fn gate_for(read: NonReplicatedRead) -> ReadGate {
    match read {
        NonReplicatedRead::Ping => ReadGate::Open,
        NonReplicatedRead::GetMe => ReadGate::Open,
        NonReplicatedRead::GetPersonalAccessTokens => ReadGate::Open,
        NonReplicatedRead::SyncConsumerGroup => ReadGate::Open,
        NonReplicatedRead::GetClients => ReadGate::User,
        NonReplicatedRead::GetClient => ReadGate::User,
        NonReplicatedRead::GetSnapshot => ReadGate::User,
        NonReplicatedRead::PollMessages => ReadGate::Partition,
        NonReplicatedRead::GetConsumerOffset => ReadGate::Partition,
        NonReplicatedRead::Default => ReadGate::Command,
    }
}

/// Who must allow a read.
pub fn read_gate(read: NonReplicatedRead) -> (gate: ReadGate)
    ensures
        gate == gate_for(read),
{
    match read {
        NonReplicatedRead::Ping => ReadGate::Open,
        NonReplicatedRead::GetMe => ReadGate::Open,
        NonReplicatedRead::GetPersonalAccessTokens => ReadGate::Open,
        NonReplicatedRead::SyncConsumerGroup => ReadGate::Open,
        NonReplicatedRead::GetClients => ReadGate::User,
        NonReplicatedRead::GetClient => ReadGate::User,
        NonReplicatedRead::GetSnapshot => ReadGate::User,
        NonReplicatedRead::PollMessages => ReadGate::Partition,
        NonReplicatedRead::GetConsumerOffset => ReadGate::Partition,
        NonReplicatedRead::Default => ReadGate::Command,
    }
}

/// What to do with a gated read.
#[derive(Debug, Clone, Copy, PartialEq, Eq, Structural)]
pub enum GatedRead {
    Serve,
    /// Answer with the error and an empty body.
    Deny(IggyError),
}

/// What to do with a read, by whether the caller may make it.
pub open spec fn gated_read(authorized: Result<(), IggyError>) -> GatedRead {
    match authorized {
        Ok(_) => GatedRead::Serve,
        Err(error) => GatedRead::Deny(error),
    }
}

/// Decides on a read by whether the caller may make it.
pub fn on_gate(authorized: Result<(), IggyError>) -> (read: GatedRead)
    ensures
        read == gated_read(authorized),
{
    match authorized {
        Ok(_) => GatedRead::Serve,
        Err(error) => GatedRead::Deny(error),
    }
}

/// A request is served without a session only where it is one of the two reads
/// that are open to everyone, or the handshake itself, or a logout, which then
/// comes to nothing.
pub proof fn law_nothing_is_served_without_a_session(header: RequestHeader, codes: CommandCodes)
    ensures
        match route_for(header, false, codes) {
            Route::NonReplicated => header.operation is NonReplicated && codes.is_allowed_pre_auth(
                header.code,
            ),
            Route::LoginRegister => header.operation is Register,
            Route::Logout => header.operation is Logout,
            Route::RejectLegacyLogin => true,
            Route::RejectUnauthenticated => true,
            Route::ReplyEmptyUnbound => true,
            _ => false,
        },
{
}

/// A login command that the handshake replaced is refused with and without a
/// session.
pub proof fn law_legacy_login_is_always_refused(
    header: RequestHeader,
    bound: bool,
    codes: CommandCodes,
)
    requires
        header.operation is NonReplicated,
        codes.is_legacy_login(header.code),
    ensures
        route_for(header, bound, codes) is RejectLegacyLogin,
{
}

/// The header under which a replicated request is submitted: that of the
/// client's bound session.
pub open spec fn bound_header(
    header: RequestHeader,
    client_id: u128,
    session: u64,
) -> RequestHeader {
    RequestHeader { client: client_id, session, ..header }
}

/// The header under which a replicated request is submitted.
pub fn bind_header(header: RequestHeader, client_id: u128, session: u64) -> (bound: RequestHeader)
    ensures
        bound == bound_header(header, client_id, session),
{
    let mut bound: RequestHeader = header;
    bound.client = client_id;
    bound.session = session;
    bound
}

} // verus!
