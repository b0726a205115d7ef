//! Frames that wait for a partition that is not there yet.
use crate::namespace::IggyNamespace;
use crate::reconciler::counters::PassCounters;
use crate::reconciler::ctx::ReconcilerCtx;
use crate::reconciler::failures::{backed_off, FailureCause, FailureRecord};
use vstd::prelude::*;

verus! {

/// What to do with the frames that wait for a namespace.
#[derive(Debug, Clone, Copy, PartialEq, Eq, Structural)]
pub enum ParkedPlan {
    /// The partition is there; the frames are delivered without the reconciler.
    Leave,
    /// The partition may still come: age the frames, and answer those that
    /// have waited too long.
    Age,
    /// The partition will not come, or not soon enough: answer the frames now.
    Reclaim,
}

/// What to do with the frames that wait for `namespace`. That a namespace is
/// not committed here is no reason to give its frames up: the commit may
/// simply not have arrived yet.
pub open spec fn parked_plan_for(
    shard_id: u16,
    failures: Map<(IggyNamespace, FailureCause), FailureRecord>,
    namespace: IggyNamespace,
    materialised: bool,
    owner: u16,
    now: u64,
) -> ParkedPlan {
    if materialised {
        ParkedPlan::Leave
    } else if owner != shard_id || backed_off(failures, namespace, FailureCause::Add, now) {
        ParkedPlan::Reclaim
    } else {
        ParkedPlan::Age
    }
}

impl ReconcilerCtx {
    /// Decides what to do with the frames that wait for a namespace, and
    /// counts a reclaim.
    pub fn plan_parked(
        &self,
        namespace: IggyNamespace,
        materialised: bool,
        owner: u16,
        now: u64,
        counters: &mut PassCounters,
    ) -> (plan: ParkedPlan)
        requires
            old(counters).has_room(),
        ensures
            plan == parked_plan_for(
                self.shard_id,
                self.failure_state@,
                namespace,
                materialised,
                owner,
                now,
            ),
            *final(counters) == (if plan is Reclaim {
                PassCounters {
                    parked_reclaimed: (old(counters).parked_reclaimed + 1) as usize,
                    ..*old(counters)
                }
            } else {
                *old(counters)
            }),
    {
        if materialised {
            return ParkedPlan::Leave;
        }
        let not_ours: bool = owner != self.shard_id;
        let waits: bool = self.is_backed_off(namespace, FailureCause::Add, now);
        if !not_ours && !waits {
            return ParkedPlan::Age;
        }
        counters.parked_reclaimed = counters.parked_reclaimed + 1;
        ParkedPlan::Reclaim
    }
}

/// Counts a namespace of whose aged frames some were answered.
pub fn count_aged(counters: &mut PassCounters, answered: usize)
    requires
        old(counters).has_room(),
    ensures
        *final(counters) == (if answered > 0 {
            PassCounters {
                parked_reclaimed: (old(counters).parked_reclaimed + 1) as usize,
                ..*old(counters)
            }
        } else {
            *old(counters)
        }),
{
    if answered > 0 {
        counters.parked_reclaimed = counters.parked_reclaimed + 1;
    }
}

} // verus!
