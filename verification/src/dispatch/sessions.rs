//! Login, logout, and the eviction of clients.
use crate::message::RequestHeader;
use crate::sequences::lemma_filter_map_step;
use vstd::prelude::*;

verus! {

/// Why a client is evicted.
#[derive(Debug, Clone, Copy, PartialEq, Eq, Structural)]
pub enum EvictionReason {
    NoSession,
    MalformedLogin,
    IncompatibleProtocol,
    StaleClient,
}

/// Where an eviction says that it comes from.
#[derive(Debug, Clone, Copy, PartialEq, Eq, Structural)]
pub struct EvictionContext {
    pub cluster: u128,
    pub view: u32,
    pub replica: u8,
}

/// Where an eviction says that it comes from: zeros on a shard without the
/// metadata consensus.
pub open spec fn eviction_origin(consensus: Option<EvictionContext>) -> EvictionContext {
    match consensus {
        Some(context) => context,
        None => EvictionContext { cluster: 0, view: 0, replica: 0 },
    }
}

/// Where an eviction says that it comes from.
pub fn eviction_context(consensus: Option<EvictionContext>) -> (context: EvictionContext)
    ensures
        context == eviction_origin(consensus),
{
    match consensus {
        Some(context) => context,
        None => EvictionContext { cluster: 0, view: 0, replica: 0 },
    }
}

/// Whether an eviction carries the protocol versions that the server speaks.
pub fn carries_protocol_window(reason: EvictionReason) -> (carries: bool)
    ensures
        carries == (reason is IncompatibleProtocol),
{
    matches!(reason, EvictionReason::IncompatibleProtocol)
}

/// Why a login or a registration failed.
#[derive(Debug, Clone, Copy, PartialEq, Eq, Structural)]
pub enum LoginRegisterError {
    InvalidCredentials,
    /// Any other failure, by its code.
    Other(u32),
}

/// What the version prefix of a login says.
#[derive(Debug, Clone, Copy, PartialEq, Eq, Structural)]
pub enum PrefixCheck {
    Malformed,
    Incompatible,
    Compatible,
}

/// What a login waits for.
#[derive(Debug, Clone, Copy, PartialEq, Eq, Structural)]
pub enum LoginStage {
    Prefix,
    Password,
    Token,
    Complete,
    Over,
}

/// The user that credentials belong to; none where the body has not the shape
/// of such credentials.
pub type CredentialCheck = Option<Result<u32, LoginRegisterError>>;

/// What came of the step that a login waited for.
#[derive(Debug, Clone, Copy)]
pub enum LoginEvent {
    PrefixChecked(PrefixCheck),
    PasswordChecked(CredentialCheck),
    TokenChecked(CredentialCheck),
    /// The session registered and bound, and the client answered, or not.
    Completed(Result<(), LoginRegisterError>),
}

/// What to do next with a login.
#[derive(Debug, Clone, Copy, PartialEq, Eq, Structural)]
pub enum LoginStep {
    CheckPassword,
    CheckToken,
    /// Register a session for the user, bind it, and answer.
    Complete(u32),
    Evict(EvictionReason),
    /// Answer with what the failure calls for.
    SurfaceFailure(LoginRegisterError),
    /// Answer that the login failed.
    ReplyFailure,
    Done,
}

/// Whether `event` is what `stage` waits for.
pub open spec fn login_expects(stage: LoginStage, event: LoginEvent) -> bool {
    match stage {
        LoginStage::Prefix => event is PrefixChecked,
        LoginStage::Password => event is PasswordChecked,
        LoginStage::Token => event is TokenChecked,
        LoginStage::Complete => event is Completed,
        LoginStage::Over => false,
    }
}

/// What follows on `event`. A wrong password is not the end: the same body may
/// be a valid access token.
pub open spec fn login_next(event: LoginEvent) -> (LoginStage, LoginStep) {
    match event {
        LoginEvent::PrefixChecked(PrefixCheck::Malformed) => (
            LoginStage::Over,
            LoginStep::Evict(EvictionReason::MalformedLogin),
        ),
        LoginEvent::PrefixChecked(PrefixCheck::Incompatible) => (
            LoginStage::Over,
            LoginStep::Evict(EvictionReason::IncompatibleProtocol),
        ),
        LoginEvent::PrefixChecked(PrefixCheck::Compatible) => (
            LoginStage::Password,
            LoginStep::CheckPassword,
        ),
        LoginEvent::PasswordChecked(Some(Ok(user_id))) => (
            LoginStage::Complete,
            LoginStep::Complete(user_id),
        ),
        LoginEvent::PasswordChecked(Some(Err(LoginRegisterError::Other(code)))) => (
            LoginStage::Over,
            LoginStep::SurfaceFailure(LoginRegisterError::Other(code)),
        ),
        LoginEvent::PasswordChecked(_) => (LoginStage::Token, LoginStep::CheckToken),
        LoginEvent::TokenChecked(Some(Ok(user_id))) => (
            LoginStage::Complete,
            LoginStep::Complete(user_id),
        ),
        LoginEvent::TokenChecked(Some(Err(error))) => (
            LoginStage::Over,
            LoginStep::SurfaceFailure(error),
        ),
        LoginEvent::TokenChecked(None) => (LoginStage::Over, LoginStep::ReplyFailure),
        LoginEvent::Completed(Ok(_)) => (LoginStage::Over, LoginStep::Done),
        LoginEvent::Completed(Err(error)) => (
            LoginStage::Over,
            LoginStep::SurfaceFailure(error),
        ),
    }
}

/// Decides what follows on `event`.
pub fn on_login(stage: LoginStage, event: LoginEvent) -> (next: (LoginStage, LoginStep))
    requires
        login_expects(stage, event),
    ensures
        next == login_next(event),
{
    match event {
        LoginEvent::PrefixChecked(check) => match check {
            PrefixCheck::Malformed => (
                LoginStage::Over,
                LoginStep::Evict(EvictionReason::MalformedLogin),
            ),
            PrefixCheck::Incompatible => (
                LoginStage::Over,
                LoginStep::Evict(EvictionReason::IncompatibleProtocol),
            ),
            PrefixCheck::Compatible => (LoginStage::Password, LoginStep::CheckPassword),
        },
        LoginEvent::PasswordChecked(check) => match check {
            Some(Ok(user_id)) => (LoginStage::Complete, LoginStep::Complete(user_id)),
            Some(Err(LoginRegisterError::InvalidCredentials)) => (
                LoginStage::Token,
                LoginStep::CheckToken,
            ),
            Some(Err(error)) => (LoginStage::Over, LoginStep::SurfaceFailure(error)),
            None => (LoginStage::Token, LoginStep::CheckToken),
        },
        LoginEvent::TokenChecked(check) => match check {
            Some(Ok(user_id)) => (LoginStage::Complete, LoginStep::Complete(user_id)),
            Some(Err(error)) => (LoginStage::Over, LoginStep::SurfaceFailure(error)),
            None => (LoginStage::Over, LoginStep::ReplyFailure),
        },
        LoginEvent::Completed(Ok(_)) => (LoginStage::Over, LoginStep::Done),
        LoginEvent::Completed(Err(error)) => (LoginStage::Over, LoginStep::SurfaceFailure(error)),
    }
}

/// The user that a login is for, where its credentials are good: the
/// password's, or else the access token's, where the password does not settle
/// the matter.
pub open spec fn login_user(
    prefix: PrefixCheck,
    password: CredentialCheck,
    token: CredentialCheck,
) -> Option<u32> {
    if !(prefix is Compatible) {
        None
    } else {
        match password {
            Some(Ok(user_id)) => Some(user_id),
            Some(Err(LoginRegisterError::Other(_))) => None,
            _ => match token {
                Some(Ok(user_id)) => Some(user_id),
                _ => None,
            },
        }
    }
}

/// Feeding the checks' results in order, as far as the login asks for them,
/// registers a session exactly for the user that the credentials are good for.
/// No credentials are looked at before the protocol version is, and every
/// login that comes to nothing is answered.
pub proof fn law_login_registers_only_good_credentials(
    prefix: PrefixCheck,
    password: CredentialCheck,
    token: CredentialCheck,
)
    ensures
        ({
            let first = login_next(LoginEvent::PrefixChecked(prefix));
            let second = if first.0 is Over {
                first
            } else {
                login_next(LoginEvent::PasswordChecked(password))
            };
            let last = if second.0 is Token {
                login_next(LoginEvent::TokenChecked(token))
            } else {
                second
            };
            &&& first.1 is CheckPassword <==> prefix is Compatible
            &&& match login_user(prefix, password, token) {
                Some(user_id) => last == (LoginStage::Complete, LoginStep::Complete(user_id)),
                None => last.0 is Over && (last.1 is Evict || last.1 is SurfaceFailure || last.1
                    is ReplyFailure),
            }
        }),
{
}

/// The request number under which the logout of a lost connection is
/// submitted: the client issued none, and it must not be zero.
pub const DISCONNECT_LOGOUT_REQUEST_ID: u64 = 0xffff_ffff_ffff_ffff;

/// A logout to be submitted to the metadata consensus.
#[derive(Debug, Clone, Copy, PartialEq, Eq, Structural)]
pub struct LogoutSubmit {
    pub vsr_client_id: u128,
    pub session: u64,
    pub request: u64,
}

/// The logout that a client asks for; none where its transport has no session.
pub open spec fn logout_of(bound: Option<(u128, u64)>, request: u64) -> Option<LogoutSubmit> {
    match bound {
        Some((vsr_client_id, session)) => Some(LogoutSubmit { vsr_client_id, session, request }),
        None => None,
    }
}

/// The logout that a client asks for.
pub fn plan_logout(bound: Option<(u128, u64)>, header: &RequestHeader) -> (submit: Option<
    LogoutSubmit,
>)
    ensures
        submit == logout_of(bound, header.request),
{
    match bound {
        Some((vsr_client_id, session)) => Some(
            LogoutSubmit { vsr_client_id, session, request: header.request },
        ),
        None => None,
    }
}

/// The logout of a connection that was lost or evicted.
pub fn plan_disconnect_logout(bound: Option<(u128, u64)>) -> (submit: Option<LogoutSubmit>)
    ensures
        submit == logout_of(bound, DISCONNECT_LOGOUT_REQUEST_ID),
{
    match bound {
        Some((vsr_client_id, session)) => Some(
            LogoutSubmit { vsr_client_id, session, request: DISCONNECT_LOGOUT_REQUEST_ID },
        ),
        None => None,
    }
}

/// What follows on the submit of a client's logout.
#[derive(Debug, Clone, Copy, PartialEq, Eq, Structural)]
pub enum LogoutStep {
    /// Unbind the transport, then answer with an empty reply at this commit.
    UnbindAndReply(u64),
}

impl LogoutStep {
    /// The session that the transport is bound to after this step.
    pub open spec fn session_after(self, bound: Option<(u128, u64)>) -> Option<(u128, u64)> {
        match self {
            LogoutStep::UnbindAndReply(_) => None,
        }
    }

    /// The commit of the reply that this step sends, where it sends one.
    pub open spec fn replied_at(self) -> Option<u64> {
        match self {
            LogoutStep::UnbindAndReply(commit) => Some(commit),
        }
    }
}

/// What follows on the submit of a client's logout, which committed at
/// `committed` or failed. A failed submit is answered as well, at the last
/// commit there is: the client waits for a reply, and its session is evicted
/// by the peers that still hold it.
pub open spec fn logout_step(committed: Option<u64>, current_commit: u64) -> LogoutStep {
    LogoutStep::UnbindAndReply(
        match committed {
            Some(commit) => commit,
            None => current_commit,
        },
    )
}

/// Decides what follows on the submit of a client's logout.
pub fn on_logout_submitted(committed: Option<u64>, current_commit: u64) -> (step: LogoutStep)
    ensures
        step == logout_step(committed, current_commit),
{
    match committed {
        Some(commit) => LogoutStep::UnbindAndReply(commit),
        None => LogoutStep::UnbindAndReply(current_commit),
    }
}

/// A client that is logged in and asks to log out is submitted under its own
/// session and request number, and whatever becomes of the submit, its
/// transport is unbound and it gets a reply: at the commit of the logout where
/// that committed, at the last commit otherwise.
pub proof fn law_every_logout_is_answered(
    vsr_client_id: u128,
    session: u64,
    request: u64,
    committed: Option<u64>,
    current_commit: u64,
)
    ensures
        ({
            let bound = Some((vsr_client_id, session));
            let step = logout_step(committed, current_commit);
            &&& logout_of(bound, request) == Some(LogoutSubmit { vsr_client_id, session, request })
            &&& step.session_after(bound) is None
            &&& step.replied_at() == (match committed {
                Some(commit) => Some(commit),
                None => Some(current_commit),
            })
        }),
{
}

/// A connection that sent nothing for too long, and whether its client belongs
/// to a consumer group.
pub type StaleConnection = (u128, bool);

/// The connections to evict: an eviction frees the partitions of a group
/// member, and has nothing to free otherwise.
pub open spec fn evicted_of(stale: Seq<StaleConnection>) -> Seq<u128> {
    stale.filter(|connection: StaleConnection| connection.1).map_values(
        |connection: StaleConnection| connection.0,
    )
}

/// The stale connections to evict.
pub fn connections_to_evict(stale: &[StaleConnection]) -> (evicted: Vec<u128>)
    ensures
        evicted@ == evicted_of(stale@),
{
    let ghost member = |connection: StaleConnection| connection.1;
    let ghost first = |connection: StaleConnection| connection.0;
    let mut evicted: Vec<u128> = Vec::new();
    let mut index: usize = 0;
    proof {
        lemma_filter_map_step(stale@, member, first, 0);
    }
    while index < stale.len()
        invariant
            index <= stale@.len(),
            member == (|connection: StaleConnection| connection.1),
            first == (|connection: StaleConnection| connection.0),
            stale@.take(stale@.len() as int) == stale@,
            evicted@ == stale@.take(index as int).filter(member).map_values(first),
        decreases stale@.len() - index,
    {
        proof {
            lemma_filter_map_step(stale@, member, first, index as int);
        }
        let connection: StaleConnection = stale[index];
        if connection.1 {
            evicted.push(connection.0);
        }
        index = index + 1;
    }
    evicted
}

} // verus!
