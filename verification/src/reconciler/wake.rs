//! What wakes the reconciler, and what it does then.
use vstd::prelude::*;

verus! {

/// What the reconciler was woken by. Where several are ready at once, they
/// rank in this order.
#[derive(Debug, Clone, Copy, PartialEq, Eq, Structural)]
pub enum WakeEvent {
    /// The shard stops.
    Stop,
    /// A commit.
    Wake,
    /// Nothing can wake the reconciler any more.
    WakeClosed,
    /// The periodic timer.
    Tick,
}

/// What to do after a wake.
#[derive(Debug, Clone, Copy, PartialEq, Eq, Structural)]
pub enum WakeAction {
    Exit,
    /// Take all wakes that are waiting, then run one pass for all of them.
    DrainAndReconcile,
    Reconcile,
}

/// What to do after a wake.
pub open spec fn action_on(event: WakeEvent) -> WakeAction {
    match event {
        WakeEvent::Stop => WakeAction::Exit,
        WakeEvent::WakeClosed => WakeAction::Exit,
        WakeEvent::Wake => WakeAction::DrainAndReconcile,
        WakeEvent::Tick => WakeAction::Reconcile,
    }
}

/// What to do after a wake.
pub fn on_wake(event: WakeEvent) -> (action: WakeAction)
    ensures
        action == action_on(event),
{
    match event {
        WakeEvent::Stop => WakeAction::Exit,
        WakeEvent::WakeClosed => WakeAction::Exit,
        WakeEvent::Wake => WakeAction::DrainAndReconcile,
        WakeEvent::Tick => WakeAction::Reconcile,
    }
}

} // verus!
