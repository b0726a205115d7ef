//! What to do for each committed namespace.
use crate::namespace::IggyNamespace;
use crate::reconciler::counters::PassCounters;
use crate::reconciler::ctx::ReconcilerCtx;
use crate::reconciler::failures::{
    after_failure, after_success, backed_off, FailureCause, FailureRecord, BACKOFF_MAX,
};
use vstd::prelude::*;

verus! {

/// What the reconciler asks of the shard's own task.
#[derive(Debug, Clone, Copy, PartialEq, Eq, Structural)]
pub enum ReconcileOp {
    /// Take over a partition that was built.
    InsertOwned { namespace: IggyNamespace, epoch: u64 },
    /// Point the routing row at the shard that owns the namespace.
    InsertRouted { namespace: IggyNamespace, owner: u16, epoch: u64 },
    /// Drop a partition whose data is gone, and lift its tombstone.
    ConfirmRemove { namespace: IggyNamespace },
    /// Drop the routing row of a namespace that is no longer committed.
    RemoveRouted { namespace: IggyNamespace },
}

/// What the shard holds for a namespace.
#[derive(Debug, Clone, Copy, PartialEq, Eq, Structural)]
pub struct NamespaceView {
    /// Whether the shard holds the partition.
    pub materialised: bool,
    /// Whether the partition is fenced for its removal.
    pub tombstoned: bool,
    /// The epoch on the routing row, where there is one.
    pub row_epoch: Option<u64>,
    /// The shard that the namespace hashes to.
    pub owner: u16,
}

/// What to do for a committed namespace.
#[derive(Debug, Clone, Copy, PartialEq, Eq, Structural)]
pub enum Addition {
    /// The partition is there and current.
    Keep,
    /// A removal is under way; rebuild once it is through.
    Defer,
    /// The delete of a fenced partition failed; tear it down again.
    RetryTeardown,
    /// The partition is of an earlier incarnation; tear it down.
    TearDownStale,
    /// Another shard owns the namespace and the routing row says so.
    AlreadyRouted,
    /// Another shard owns the namespace; write the routing row.
    Route,
    /// A build failed not long ago.
    BackedOff,
    /// Build the partition.
    Build,
}

/// Whether the routing row is that of the committed incarnation. A namespace
/// keeps its name over a delete and a new create; only the epoch tells them
/// apart.
pub fn shards_table_has_epoch(row_epoch: Option<u64>, epoch: u64) -> (current: bool)
    ensures
        current == (row_epoch == Some(epoch)),
{
    match row_epoch {
        Some(found) => found == epoch,
        None => false,
    }
}

/// What to do for a committed namespace, given what the shard holds and what
/// failed before.
pub open spec fn addition_for(
    shard_id: u16,
    failures: Map<(IggyNamespace, FailureCause), FailureRecord>,
    namespace: IggyNamespace,
    epoch: u64,
    view: NamespaceView,
    now: u64,
) -> Addition {
    if view.materialised && view.tombstoned {
        if failures.contains_key((namespace, FailureCause::Delete)) {
            Addition::RetryTeardown
        } else {
            Addition::Defer
        }
    } else if view.materialised {
        if view.row_epoch == Some(epoch) {
            Addition::Keep
        } else {
            Addition::TearDownStale
        }
    } else if view.owner != shard_id {
        if view.row_epoch == Some(epoch) {
            Addition::AlreadyRouted
        } else {
            Addition::Route
        }
    } else if backed_off(failures, namespace, FailureCause::Add, now) {
        Addition::BackedOff
    } else {
        Addition::Build
    }
}

/// What the plan of an addition counts.
pub open spec fn addition_counted(counters: PassCounters, addition: Addition) -> PassCounters {
    match addition {
        Addition::Defer => PassCounters { deferred: (counters.deferred + 1) as usize, ..counters },
        Addition::TearDownStale => PassCounters {
            stale: (counters.stale + 1) as usize,
            ..counters
        },
        Addition::Route => PassCounters { routed: (counters.routed + 1) as usize, ..counters },
        Addition::BackedOff => PassCounters {
            backoff_skipped: (counters.backoff_skipped + 1) as usize,
            ..counters
        },
        _ => counters,
    }
}

/// What came of an attempt to build a partition.
#[derive(Debug, Clone, Copy, PartialEq, Eq, Structural)]
pub enum BuildOutcome {
    /// The topic was gone before the build began.
    TopicGone,
    Built,
    Failed,
}

/// What to ask of the shard for a namespace that another shard owns: a routing
/// row at that owner, with the committed epoch.
pub fn routing_op(namespace: IggyNamespace, epoch: u64, view: &NamespaceView) -> (op: ReconcileOp)
    ensures
        op == (ReconcileOp::InsertRouted { namespace, owner: view.owner, epoch }),
{
    ReconcileOp::InsertRouted { namespace, owner: view.owner, epoch }
}

impl ReconcilerCtx {
    /// Decides what to do for a committed namespace, and counts it.
    pub fn plan_addition(
        &self,
        namespace: IggyNamespace,
        epoch: u64,
        view: NamespaceView,
        now: u64,
        counters: &mut PassCounters,
    ) -> (addition: Addition)
        requires
            old(counters).has_room(),
        ensures
            addition == addition_for(
                self.shard_id,
                self.failure_state@,
                namespace,
                epoch,
                view,
                now,
            ),
            *final(counters) == addition_counted(*old(counters), addition),
    {
        if view.materialised {
            if view.tombstoned {
                if !self.has_pending_delete_failure(namespace) {
                    counters.deferred = counters.deferred + 1;
                    return Addition::Defer;
                }
                return Addition::RetryTeardown;
            }
            if shards_table_has_epoch(view.row_epoch, epoch) {
                return Addition::Keep;
            }
            counters.stale = counters.stale + 1;
            return Addition::TearDownStale;
        }
        if view.owner != self.shard_id {
            if shards_table_has_epoch(view.row_epoch, epoch) {
                return Addition::AlreadyRouted;
            }
            counters.routed = counters.routed + 1;
            return Addition::Route;
        }
        if self.is_backed_off(namespace, FailureCause::Add, now) {
            counters.backoff_skipped = counters.backoff_skipped + 1;
            return Addition::BackedOff;
        }
        Addition::Build
    }

    /// Takes in what came of a build. Returns what to ask of the shard.
    pub fn finish_build(
        &mut self,
        namespace: IggyNamespace,
        epoch: u64,
        outcome: BuildOutcome,
        now: u64,
        counters: &mut PassCounters,
    ) -> (op: Option<ReconcileOp>)
        requires
            old(counters).has_room(),
            now + BACKOFF_MAX <= u64::MAX,
        ensures
            final(self).differs_in_failures_only(*old(self)),
            match outcome {
                BuildOutcome::TopicGone => {
                    &&& op is None
                    &&& final(self).failure_state@ == old(self).failure_state@
                    &&& *final(counters) == *old(counters)
                },
                BuildOutcome::Built => {
                    &&& op == Some(ReconcileOp::InsertOwned { namespace, epoch })
                    &&& final(self).failure_state@ == after_success(
                        old(self).failure_state@,
                        namespace,
                        FailureCause::Add,
                    )
                    &&& *final(counters) == (PassCounters {
                        materialised: (old(counters).materialised + 1) as usize,
                        ..*old(counters)
                    })
                },
                BuildOutcome::Failed => {
                    &&& op is None
                    &&& final(self).failure_state@ == after_failure(
                        old(self).failure_state@,
                        namespace,
                        FailureCause::Add,
                        now,
                    )
                    &&& *final(counters) == *old(counters)
                },
            },
    {
        match outcome {
            BuildOutcome::TopicGone => None,
            BuildOutcome::Built => {
                self.record_success(namespace, FailureCause::Add);
                counters.materialised = counters.materialised + 1;
                Some(ReconcileOp::InsertOwned { namespace, epoch })
            },
            BuildOutcome::Failed => {
                self.record_failure(namespace, FailureCause::Add, now);
                None
            },
        }
    }
}

} // verus!
