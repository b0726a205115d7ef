//! The removal of partitions and routing rows.
//!
//! A partition is fenced first, then its data is deleted, then it is dropped.
//! Where the delete fails it stays fenced, and a later pass tries again: no
//! partition is dropped before its data is gone.
use crate::namespace::IggyNamespace;
use crate::reconciler::additions::ReconcileOp;
use crate::reconciler::counters::PassCounters;
use crate::reconciler::ctx::ReconcilerCtx;
use crate::reconciler::failures::{
    after_failure, after_success, backed_off, FailureCause, FailureRecord, BACKOFF_MAX,
};
use crate::reconciler::sets::NamespaceSet;
use crate::sequences::{lemma_filter_map_step, lemma_filter_step};
use vstd::prelude::*;

verus! {

/// How a teardown begins.
#[derive(Debug, Clone, Copy, PartialEq, Eq, Structural)]
pub enum Teardown {
    /// The namespace hashes to another shard, whose data a delete would hit.
    RefusePeerOwned,
    /// A delete failed not long ago.
    BackedOff,
    /// Fence the partition and drop its routing row, then delete its data.
    Fence,
}

/// How the teardown of `namespace` begins.
pub open spec fn teardown_for(
    shard_id: u16,
    failures: Map<(IggyNamespace, FailureCause), FailureRecord>,
    namespace: IggyNamespace,
    hash_owner: u16,
    now: u64,
) -> Teardown {
    if hash_owner != shard_id {
        Teardown::RefusePeerOwned
    } else if backed_off(failures, namespace, FailureCause::Delete, now) {
        Teardown::BackedOff
    } else {
        Teardown::Fence
    }
}

/// What is asked of the shard once the data of a fenced partition is gone, or
/// could not be deleted.
pub open spec fn removal_op(namespace: IggyNamespace, deleted: bool) -> Option<ReconcileOp> {
    if deleted {
        Some(ReconcileOp::ConfirmRemove { namespace })
    } else {
        None
    }
}

/// What is recorded once the data of a fenced partition is gone, or could not
/// be deleted.
pub open spec fn after_delete(
    failures: Map<(IggyNamespace, FailureCause), FailureRecord>,
    namespace: IggyNamespace,
    deleted: bool,
    now: u64,
) -> Map<(IggyNamespace, FailureCause), FailureRecord> {
    if deleted {
        after_success(failures, namespace, FailureCause::Delete)
    } else {
        after_failure(failures, namespace, FailureCause::Delete, now)
    }
}

impl ReconcilerCtx {
    /// Decides how the teardown of a held partition begins. A refusal counts
    /// as a failed delete.
    pub fn begin_teardown(
        &mut self,
        namespace: IggyNamespace,
        hash_owner: u16,
        now: u64,
        counters: &mut PassCounters,
    ) -> (teardown: Teardown)
        requires
            old(counters).has_room(),
            now + BACKOFF_MAX <= u64::MAX,
        ensures
            teardown == teardown_for(
                old(self).shard_id,
                old(self).failure_state@,
                namespace,
                hash_owner,
                now,
            ),
            final(self).differs_in_failures_only(*old(self)),
            match teardown {
                Teardown::RefusePeerOwned => {
                    &&& final(self).failure_state@ == after_failure(
                        old(self).failure_state@,
                        namespace,
                        FailureCause::Delete,
                        now,
                    )
                    &&& *final(counters) == *old(counters)
                },
                Teardown::BackedOff => {
                    &&& final(self).failure_state@ == old(self).failure_state@
                    &&& *final(counters) == (PassCounters {
                        backoff_skipped: (old(counters).backoff_skipped + 1) as usize,
                        ..*old(counters)
                    })
                },
                Teardown::Fence => {
                    &&& final(self).failure_state@ == old(self).failure_state@
                    &&& *final(counters) == *old(counters)
                },
            },
    {
        if hash_owner != self.shard_id {
            self.record_failure(namespace, FailureCause::Delete, now);
            return Teardown::RefusePeerOwned;
        }
        if self.is_backed_off(namespace, FailureCause::Delete, now) {
            counters.backoff_skipped = counters.backoff_skipped + 1;
            return Teardown::BackedOff;
        }
        Teardown::Fence
    }

    /// Takes in whether the data of a fenced partition was deleted. Returns
    /// what to ask of the shard.
    pub fn finish_teardown(
        &mut self,
        namespace: IggyNamespace,
        deleted: bool,
        now: u64,
        counters: &mut PassCounters,
    ) -> (op: Option<ReconcileOp>)
        requires
            old(counters).has_room(),
            now + BACKOFF_MAX <= u64::MAX,
        ensures
            final(self).differs_in_failures_only(*old(self)),
            op == removal_op(namespace, deleted),
            final(self).failure_state@ == after_delete(
                old(self).failure_state@,
                namespace,
                deleted,
                now,
            ),
            deleted ==> *final(counters) == (PassCounters {
                removed_local: (old(counters).removed_local + 1) as usize,
                ..*old(counters)
            }),
            !deleted ==> *final(counters) == *old(counters),
    {
        if !deleted {
            self.record_failure(namespace, FailureCause::Delete, now);
            return None;
        }
        self.record_success(namespace, FailureCause::Delete);
        counters.removed_local = counters.removed_local + 1;
        Some(ReconcileOp::ConfirmRemove { namespace })
    }
}

/// The namespaces of `local` that are not committed.
pub open spec fn ghosts(local: Seq<IggyNamespace>, target: Set<IggyNamespace>) -> Seq<
    IggyNamespace,
> {
    local.filter(|namespace: IggyNamespace| !target.contains(namespace))
}

/// The namespaces with a routing row that are neither committed nor held. A
/// ghost that is still held keeps its row, so that its peers still find it.
pub open spec fn routed_ghosts_of(
    rows: Seq<IggyNamespace>,
    target: Set<IggyNamespace>,
    still_owned: Set<IggyNamespace>,
) -> Seq<IggyNamespace> {
    rows.filter(
        |namespace: IggyNamespace|
            !target.contains(namespace) && !still_owned.contains(namespace),
    )
}

/// The held namespaces that are not committed.
pub fn owned_ghosts(local: &[IggyNamespace], target: &NamespaceSet) -> (found: Vec<IggyNamespace>)
    ensures
        found@ == ghosts(local@, target@),
{
    let ghost keep = |namespace: IggyNamespace| !target@.contains(namespace);
    let mut found: Vec<IggyNamespace> = Vec::new();
    let mut index: usize = 0;
    proof {
        lemma_filter_step(local@, keep, 0);
    }
    while index < local.len()
        invariant
            index <= local@.len(),
            keep == (|namespace: IggyNamespace| !target@.contains(namespace)),
            local@.take(local@.len() as int) == local@,
            found@ == local@.take(index as int).filter(keep),
        decreases local@.len() - index,
    {
        proof {
            lemma_filter_step(local@, keep, index as int);
        }
        if !target.contains(local[index]) {
            found.push(local[index]);
        }
        index = index + 1;
    }
    found
}

/// Drops the routing rows of namespaces that are neither committed nor held,
/// and counts them.
pub fn remove_routed_ghosts(
    rows: &[IggyNamespace],
    target: &NamespaceSet,
    still_owned: &NamespaceSet,
    counters: &mut PassCounters,
) -> (ops: Vec<ReconcileOp>)
    requires
        old(counters).sum() + rows@.len() <= usize::MAX,
    ensures
        ({
            let removed = routed_ghosts_of(rows@, target@, still_owned@);
            &&& ops@ == removed.map_values(
                |namespace: IggyNamespace| ReconcileOp::RemoveRouted { namespace },
            )
            &&& *final(counters) == (PassCounters {
                removed_routed: (old(counters).removed_routed + removed.len()) as usize,
                ..*old(counters)
            })
        }),
{
    let ghost keep = |namespace: IggyNamespace|
        !target@.contains(namespace) && !still_owned@.contains(namespace);
    let ghost as_op = |namespace: IggyNamespace| ReconcileOp::RemoveRouted { namespace };
    let ghost before = *counters;
    let mut ops: Vec<ReconcileOp> = Vec::new();
    let mut index: usize = 0;
    proof {
        lemma_filter_map_step(rows@, keep, as_op, 0);
    }
    while index < rows.len()
        invariant
            index <= rows@.len(),
            keep == (|namespace: IggyNamespace|
                !target@.contains(namespace) && !still_owned@.contains(namespace)),
            as_op == (|namespace: IggyNamespace| ReconcileOp::RemoveRouted { namespace }),
            rows@.take(rows@.len() as int) == rows@,
            ops@ == rows@.take(index as int).filter(keep).map_values(as_op),
            ops@.len() <= index,
            before.sum() + rows@.len() <= usize::MAX,
            *counters == (PassCounters {
                removed_routed: (before.removed_routed + ops@.len()) as usize,
                ..before
            }),
        decreases rows@.len() - index,
    {
        let namespace: IggyNamespace = rows[index];
        proof {
            lemma_filter_map_step(rows@, keep, as_op, index as int);
        }
        if !target.contains(namespace) && !still_owned.contains(namespace) {
            ops.push(ReconcileOp::RemoveRouted { namespace });
            counters.removed_routed = counters.removed_routed + 1;
        }
        index = index + 1;
    }
    ops
}

} // verus!
