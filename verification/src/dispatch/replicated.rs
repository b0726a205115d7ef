//! A request on its way through the metadata consensus.
//!
//! The request is rewritten for replication, submitted, and its committed
//! reply is sent to the client.
use crate::error::IggyError;
use vstd::prelude::*;

verus! {

/// What a replicated request waits for.
#[derive(Debug, Clone, Copy, PartialEq, Eq, Structural)]
pub enum ReplicatedStage {
    TokenRewrite,
    PasswordRewrite,
    GroupRewrite,
    Submit,
    ReplyBuild,
    Over,
}

/// What came of the step that a replicated request waited for.
#[derive(Debug, Clone, Copy)]
pub enum ReplicatedEvent {
    /// Access-token context added, or not to be had.
    TokenRewritten(Result<(), IggyError>),
    /// Passwords hashed, or the body malformed.
    PasswordRewritten(Result<(), IggyError>),
    /// Group membership context added, or the body malformed.
    GroupRewritten(Result<(), IggyError>),
    /// Whether the submit committed and brought a reply back.
    Submitted(bool),
    /// The raw access token put into the committed reply.
    ReplyBuilt(Result<(), IggyError>),
}

/// What to do next with a replicated request.
#[derive(Debug, Clone, Copy, PartialEq, Eq, Structural)]
pub enum ReplicatedStep {
    RewritePassword,
    RewriteGroup,
    Submit,
    BuildReply,
    /// Send the reply to the client.
    SendReply,
    /// Answer with the error and an empty body.
    Deny(IggyError),
    /// Answer nothing: the request cannot be replicated.
    Drop,
    /// Answer nothing: the client sends the request again.
    AwaitReplay,
}

/// Whether `event` is what `stage` waits for.
pub open spec fn replicated_expects(stage: ReplicatedStage, event: ReplicatedEvent) -> bool {
    match stage {
        ReplicatedStage::TokenRewrite => event is TokenRewritten,
        ReplicatedStage::PasswordRewrite => event is PasswordRewritten,
        ReplicatedStage::GroupRewrite => event is GroupRewritten,
        ReplicatedStage::Submit => event is Submitted,
        ReplicatedStage::ReplyBuild => event is ReplyBuilt,
        ReplicatedStage::Over => false,
    }
}

/// What follows on `event`.
pub open spec fn replicated_next(event: ReplicatedEvent) -> (ReplicatedStage, ReplicatedStep) {
    match event {
        ReplicatedEvent::TokenRewritten(Ok(_)) => (
            ReplicatedStage::PasswordRewrite,
            ReplicatedStep::RewritePassword,
        ),
        ReplicatedEvent::PasswordRewritten(Ok(_)) => (
            ReplicatedStage::GroupRewrite,
            ReplicatedStep::RewriteGroup,
        ),
        ReplicatedEvent::GroupRewritten(Ok(_)) => (ReplicatedStage::Submit, ReplicatedStep::Submit),
        ReplicatedEvent::Submitted(true) => (
            ReplicatedStage::ReplyBuild,
            ReplicatedStep::BuildReply,
        ),
        ReplicatedEvent::ReplyBuilt(Ok(_)) => (ReplicatedStage::Over, ReplicatedStep::SendReply),
        ReplicatedEvent::PasswordRewritten(Err(error)) => (
            ReplicatedStage::Over,
            ReplicatedStep::Deny(error),
        ),
        ReplicatedEvent::Submitted(false) => (ReplicatedStage::Over, ReplicatedStep::AwaitReplay),
        _ => (ReplicatedStage::Over, ReplicatedStep::Drop),
    }
}

/// Decides what follows on `event`.
pub fn on_replicated(stage: ReplicatedStage, event: ReplicatedEvent) -> (next: (
    ReplicatedStage,
    ReplicatedStep,
))
    requires
        replicated_expects(stage, event),
    ensures
        next == replicated_next(event),
{
    match event {
        ReplicatedEvent::TokenRewritten(Ok(_)) => (
            ReplicatedStage::PasswordRewrite,
            ReplicatedStep::RewritePassword,
        ),
        ReplicatedEvent::TokenRewritten(Err(_)) => (ReplicatedStage::Over, ReplicatedStep::Drop),
        ReplicatedEvent::PasswordRewritten(Ok(_)) => (
            ReplicatedStage::GroupRewrite,
            ReplicatedStep::RewriteGroup,
        ),
        ReplicatedEvent::PasswordRewritten(Err(error)) => (
            ReplicatedStage::Over,
            ReplicatedStep::Deny(error),
        ),
        ReplicatedEvent::GroupRewritten(Ok(_)) => (ReplicatedStage::Submit, ReplicatedStep::Submit),
        ReplicatedEvent::GroupRewritten(Err(_)) => (ReplicatedStage::Over, ReplicatedStep::Drop),
        ReplicatedEvent::Submitted(committed) => if committed {
            (ReplicatedStage::ReplyBuild, ReplicatedStep::BuildReply)
        } else {
            (ReplicatedStage::Over, ReplicatedStep::AwaitReplay)
        },
        ReplicatedEvent::ReplyBuilt(Ok(_)) => (ReplicatedStage::Over, ReplicatedStep::SendReply),
        ReplicatedEvent::ReplyBuilt(Err(_)) => (ReplicatedStage::Over, ReplicatedStep::Drop),
    }
}

/// How a replicated request ends, given what comes of each step.
pub open spec fn replicated_outcome(
    token: Result<(), IggyError>,
    password: Result<(), IggyError>,
    group: Result<(), IggyError>,
    committed: bool,
    reply: Result<(), IggyError>,
) -> ReplicatedStep {
    if token is Err {
        ReplicatedStep::Drop
    } else if password is Err {
        ReplicatedStep::Deny(password->Err_0)
    } else if group is Err {
        ReplicatedStep::Drop
    } else if !committed {
        ReplicatedStep::AwaitReplay
    } else if reply is Err {
        ReplicatedStep::Drop
    } else {
        ReplicatedStep::SendReply
    }
}

/// Feeding the steps' results in order, as far as the flow asks for them, ends
/// as the outcome says: only a committed request is answered with success, and
/// nothing is submitted that could not be rewritten.
pub proof fn law_replicated_request_ends_once(
    token: Result<(), IggyError>,
    password: Result<(), IggyError>,
    group: Result<(), IggyError>,
    committed: bool,
    reply: Result<(), IggyError>,
)
    ensures
        ({
            let first = replicated_next(ReplicatedEvent::TokenRewritten(token));
            let second = if first.0 is Over {
                first
            } else {
                replicated_next(ReplicatedEvent::PasswordRewritten(password))
            };
            let third = if second.0 is Over {
                second
            } else {
                replicated_next(ReplicatedEvent::GroupRewritten(group))
            };
            let fourth = if third.0 is Over {
                third
            } else {
                replicated_next(ReplicatedEvent::Submitted(committed))
            };
            let last = if fourth.0 is Over {
                fourth
            } else {
                replicated_next(ReplicatedEvent::ReplyBuilt(reply))
            };
            &&& last.0 is Over
            &&& last.1 == replicated_outcome(token, password, group, committed, reply)
            &&& last.1 is SendReply ==> committed
            &&& third.1 is Submit <==> token is Ok && password is Ok && group is Ok
        }),
{
}

} // verus!
