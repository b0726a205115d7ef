//! The wait for a partition that was only just created.
//!
//! A topic is committed before the shards have seeded their routing rows and
//! built its partitions. A request that comes in between waits here, for
//! three seconds at most.
use crate::dispatch::serving::PartitionReadReply;
use vstd::prelude::*;

verus! {

/// How many times the wait sleeps at most.
pub const MAX_ATTEMPTS: u32 = 60;

/// Milliseconds of one sleep.
pub const ATTEMPT_DELAY_MILLIS: u64 = 50;

/// What the wait waits for; the number counts the sleeps so far.
#[derive(Debug, Clone, Copy, PartialEq, Eq, Structural)]
pub enum RoutableStage {
    /// Whether the routing row was there from the start.
    FirstRow,
    Row(u32),
    RowSleep(u32),
    Probe(u32),
    ProbeSleep(u32),
    Over,
}

/// What came of it.
#[derive(Debug, Clone, Copy, PartialEq, Eq, Structural)]
pub enum RoutableEvent {
    /// Whether this shard has a routing row for the namespace.
    RowFound(bool),
    /// What the owner replied to a read of the partition, where it replied.
    OwnerReplied(Option<PartitionReadReply>),
    Slept,
}

/// What to do next.
#[derive(Debug, Clone, Copy, PartialEq, Eq, Structural)]
pub enum RoutableStep {
    CheckRow,
    ProbeOwner,
    Sleep,
    /// The wait is over; whether the partition is routable.
    Done(bool),
}

/// Whether `event` is what `stage` waits for.
pub open spec fn routable_expects(stage: RoutableStage, event: RoutableEvent) -> bool {
    match stage {
        RoutableStage::FirstRow | RoutableStage::Row(_) => event is RowFound,
        RoutableStage::Probe(_) => event is OwnerReplied,
        RoutableStage::RowSleep(_) | RoutableStage::ProbeSleep(_) => event is Slept,
        RoutableStage::Over => false,
    }
}

/// Whether a reply shows that the owner holds the partition.
pub open spec fn shows_partition(reply: Option<PartitionReadReply>) -> bool {
    match reply {
        Some(reply) => !(reply is NotFound),
        None => false,
    }
}

/// How many times the wait has slept, the sleep that it is in included.
pub open spec fn attempts(stage: RoutableStage) -> int {
    match stage {
        RoutableStage::Row(sleeps) => sleeps as int,
        RoutableStage::RowSleep(sleeps) => sleeps as int,
        RoutableStage::Probe(sleeps) => sleeps as int,
        RoutableStage::ProbeSleep(sleeps) => sleeps as int,
        _ => 0,
    }
}

/// A wait that has not slept too often.
pub open spec fn within_budget(stage: RoutableStage) -> bool {
    attempts(stage) <= MAX_ATTEMPTS && (stage is Probe ==> attempts(stage) < MAX_ATTEMPTS)
}

/// What follows on `event`.
pub open spec fn routable_next(stage: RoutableStage, event: RoutableEvent) -> (
    RoutableStage,
    RoutableStep,
) {
    match (stage, event) {
        (RoutableStage::FirstRow, RoutableEvent::RowFound(true)) => (
            RoutableStage::Over,
            RoutableStep::Done(true),
        ),
        (RoutableStage::FirstRow, _) => (RoutableStage::Row(0), RoutableStep::CheckRow),
        (RoutableStage::Row(sleeps), event) => if sleeps >= MAX_ATTEMPTS {
            (RoutableStage::Over, RoutableStep::Done(false))
        } else if event == RoutableEvent::RowFound(true) {
            (RoutableStage::Probe(sleeps), RoutableStep::ProbeOwner)
        } else {
            (RoutableStage::RowSleep((sleeps + 1) as u32), RoutableStep::Sleep)
        },
        (RoutableStage::RowSleep(sleeps), _) => (
            RoutableStage::Row(sleeps),
            RoutableStep::CheckRow,
        ),
        (RoutableStage::Probe(sleeps), event) => if event matches RoutableEvent::OwnerReplied(reply)
            && shows_partition(reply) {
            (RoutableStage::Over, RoutableStep::Done(true))
        } else {
            (RoutableStage::ProbeSleep((sleeps + 1) as u32), RoutableStep::Sleep)
        },
        (RoutableStage::ProbeSleep(sleeps), _) => if sleeps < MAX_ATTEMPTS {
            (RoutableStage::Probe(sleeps), RoutableStep::ProbeOwner)
        } else {
            (RoutableStage::Over, RoutableStep::Done(false))
        },
        (RoutableStage::Over, _) => (RoutableStage::Over, RoutableStep::Done(false)),
    }
}

/// Decides what follows on `event`.
pub fn on_routable(stage: RoutableStage, event: RoutableEvent) -> (next: (
    RoutableStage,
    RoutableStep,
))
    requires
        routable_expects(stage, event),
        within_budget(stage),
    ensures
        next == routable_next(stage, event),
{
    match stage {
        RoutableStage::FirstRow => match event {
            RoutableEvent::RowFound(true) => (RoutableStage::Over, RoutableStep::Done(true)),
            _ => (RoutableStage::Row(0), RoutableStep::CheckRow),
        },
        RoutableStage::Row(sleeps) => {
            let found: bool = matches!(event, RoutableEvent::RowFound(true));
            if sleeps >= MAX_ATTEMPTS {
                (RoutableStage::Over, RoutableStep::Done(false))
            } else if found {
                (RoutableStage::Probe(sleeps), RoutableStep::ProbeOwner)
            } else {
                (RoutableStage::RowSleep(sleeps + 1), RoutableStep::Sleep)
            }
        },
        RoutableStage::RowSleep(sleeps) => (RoutableStage::Row(sleeps), RoutableStep::CheckRow),
        RoutableStage::Probe(sleeps) => match event {
            RoutableEvent::OwnerReplied(Some(PartitionReadReply::NotFound)) => (
                RoutableStage::ProbeSleep(sleeps + 1),
                RoutableStep::Sleep,
            ),
            RoutableEvent::OwnerReplied(Some(_)) => (RoutableStage::Over, RoutableStep::Done(true)),
            _ => (RoutableStage::ProbeSleep(sleeps + 1), RoutableStep::Sleep),
        },
        RoutableStage::ProbeSleep(sleeps) => if sleeps < MAX_ATTEMPTS {
            (RoutableStage::Probe(sleeps), RoutableStep::ProbeOwner)
        } else {
            (RoutableStage::Over, RoutableStep::Done(false))
        },
        RoutableStage::Over => (RoutableStage::Over, RoutableStep::Done(false)),
    }
}

/// How far a wait is from its end at most.
pub open spec fn steps_left(stage: RoutableStage) -> nat {
    let left = MAX_ATTEMPTS - attempts(stage);
    match stage {
        RoutableStage::Over => 0,
        RoutableStage::Probe(_) => (4 * left + 1) as nat,
        RoutableStage::ProbeSleep(_) => (4 * left + 2) as nat,
        RoutableStage::Row(_) => (4 * left + 3) as nat,
        RoutableStage::RowSleep(_) => (4 * left + 4) as nat,
        RoutableStage::FirstRow => (4 * left + 5) as nat,
    }
}

/// The wait ends: every step brings it nearer to its end, and it sleeps no
/// more than its budget allows, once for every attempt that it counts.
pub proof fn law_wait_ends_within_its_budget(stage: RoutableStage, event: RoutableEvent)
    requires
        routable_expects(stage, event),
        within_budget(stage),
    ensures
        ({
            let (next, step) = routable_next(stage, event);
            &&& within_budget(next)
            &&& steps_left(next) < steps_left(stage)
            &&& next is Over <==> step is Done
            &&& !(next is Over) ==> attempts(next) == attempts(stage) + if step is Sleep {
                1int
            } else {
                0
            }
        }),
{
}

/// A partition counts as routable only where its row was there from the start
/// or its owner answered; a row that was there needs neither sleep nor probe.
pub proof fn law_routable_only_on_evidence(stage: RoutableStage, event: RoutableEvent)
    requires
        routable_expects(stage, event),
        within_budget(stage),
    ensures
        routable_next(stage, event).1 == RoutableStep::Done(true) <==> {
            ||| (stage is FirstRow && event == RoutableEvent::RowFound(true))
            ||| (stage is Probe && (event matches RoutableEvent::OwnerReplied(reply)
                && shows_partition(reply)))
        },
{
}

} // verus!
