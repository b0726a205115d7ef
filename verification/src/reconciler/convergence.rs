//! That the shard comes to hold what is committed.
//!
//! The laws here follow one namespace over passes in which every attempt that
//! is made succeeds and the shard's own task does what it is asked.
use crate::namespace::IggyNamespace;
use crate::reconciler::additions::{addition_for, Addition, NamespaceView, ReconcileOp};
use crate::reconciler::failures::{backed_off, FailureCause};
use crate::reconciler::laws::{converged, Failures};
use crate::reconciler::removals::{removal_op, teardown_for, Teardown};
use vstd::prelude::*;

verus! {

/// What the shard holds for a namespace once its own task has done `op`.
pub open spec fn applied(view: NamespaceView, op: ReconcileOp) -> NamespaceView {
    match op {
        ReconcileOp::InsertOwned { namespace: _, epoch } => NamespaceView {
            materialised: true,
            tombstoned: false,
            row_epoch: Some(epoch),
            ..view
        },
        ReconcileOp::InsertRouted { namespace: _, owner: _, epoch } => NamespaceView {
            row_epoch: Some(epoch),
            ..view
        },
        ReconcileOp::ConfirmRemove { namespace: _ } => NamespaceView {
            materialised: false,
            tombstoned: false,
            ..view
        },
        ReconcileOp::RemoveRouted { namespace: _ } => NamespaceView { row_epoch: None, ..view },
    }
}

/// What the shard holds for a namespace while its data is deleted.
pub open spec fn fenced(view: NamespaceView) -> NamespaceView {
    NamespaceView { tombstoned: true, row_epoch: None, ..view }
}

/// What the shard holds for a namespace after its teardown.
pub open spec fn after_teardown(
    shard_id: u16,
    failures: Failures,
    namespace: IggyNamespace,
    view: NamespaceView,
    now: u64,
) -> NamespaceView {
    match teardown_for(shard_id, failures, namespace, view.owner, now) {
        Teardown::Fence => applied(fenced(view), removal_op(namespace, true)->0),
        _ => view,
    }
}

/// What the shard holds for a namespace after a pass. `committed` is the epoch
/// of the committed incarnation, where there is one.
pub open spec fn after_pass(
    shard_id: u16,
    failures: Failures,
    namespace: IggyNamespace,
    committed: Option<u64>,
    view: NamespaceView,
    now: u64,
) -> NamespaceView {
    match committed {
        Some(epoch) => match addition_for(shard_id, failures, namespace, epoch, view, now) {
            Addition::Defer => applied(view, ReconcileOp::ConfirmRemove { namespace }),
            Addition::RetryTeardown | Addition::TearDownStale => after_teardown(
                shard_id,
                failures,
                namespace,
                view,
                now,
            ),
            Addition::Route => applied(
                view,
                ReconcileOp::InsertRouted { namespace, owner: view.owner, epoch },
            ),
            Addition::Build => applied(view, ReconcileOp::InsertOwned { namespace, epoch }),
            _ => view,
        },
        None => {
            let kept = if view.materialised {
                after_teardown(shard_id, failures, namespace, view, now)
            } else {
                view
            };
            if kept.materialised {
                kept
            } else {
                applied(kept, ReconcileOp::RemoveRouted { namespace })
            }
        },
    }
}

/// Whether a view can arise: a fence is on a partition that is held, and a
/// shard holds what hashes to it.
pub open spec fn sound(shard_id: u16, view: NamespaceView) -> bool {
    &&& view.tombstoned ==> view.materialised
    &&& view.materialised ==> view.owner == shard_id
}

/// A committed namespace has converged after two passes, from whatever the
/// shard held for it: from nothing, from an earlier incarnation, from a lost
/// or outdated routing row, and from a fence that a failed delete left behind.
/// One pass is enough where nothing has to be torn down first.
pub proof fn law_committed_namespace_converges(
    shard_id: u16,
    failures: Failures,
    later_failures: Failures,
    namespace: IggyNamespace,
    epoch: u64,
    view: NamespaceView,
    now: u64,
    later: u64,
)
    requires
        sound(shard_id, view),
        !backed_off(failures, namespace, FailureCause::Add, now),
        !backed_off(failures, namespace, FailureCause::Delete, now),
        !backed_off(later_failures, namespace, FailureCause::Add, later),
    ensures
        ({
            let committed = Some(epoch);
            let first = after_pass(shard_id, failures, namespace, committed, view, now);
            let second = after_pass(shard_id, later_failures, namespace, committed, first, later);
            &&& converged(shard_id, epoch, second)
            &&& !view.materialised ==> converged(shard_id, epoch, first)
        }),
{
}

/// A namespace that is not committed is gone after one pass: partition, fence
/// and routing row.
pub proof fn law_uncommitted_namespace_leaves(
    shard_id: u16,
    failures: Failures,
    namespace: IggyNamespace,
    view: NamespaceView,
    now: u64,
)
    requires
        sound(shard_id, view),
        !backed_off(failures, namespace, FailureCause::Delete, now),
    ensures
        ({
            let after = after_pass(shard_id, failures, namespace, None, view, now);
            !after.materialised && !after.tombstoned && after.row_epoch is None
        }),
{
}

/// Passes are idempotent: what has converged stays as it is.
pub proof fn law_converged_namespace_stays(
    shard_id: u16,
    failures: Failures,
    namespace: IggyNamespace,
    epoch: u64,
    view: NamespaceView,
    now: u64,
)
    requires
        converged(shard_id, epoch, view),
    ensures
        after_pass(shard_id, failures, namespace, Some(epoch), view, now) == view,
{
}

/// A partition is dropped in no other way than after its data: each pass
/// leaves it held, or had it fenced and its data deleted.
pub proof fn law_partition_is_dropped_after_its_data(
    shard_id: u16,
    failures: Failures,
    namespace: IggyNamespace,
    committed: Option<u64>,
    view: NamespaceView,
    now: u64,
)
    requires
        view.materialised,
        !after_pass(shard_id, failures, namespace, committed, view, now).materialised,
    ensures
        view.tombstoned && !failures.contains_key((namespace, FailureCause::Delete))
            || teardown_for(shard_id, failures, namespace, view.owner, now) is Fence,
{
}

} // verus!
