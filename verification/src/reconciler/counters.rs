//! What a pass did.
use vstd::prelude::*;

verus! {

/// What a pass did, by kind. A pass that counted nothing has converged.
#[derive(Debug, Clone, Copy, PartialEq, Eq, Structural)]
pub struct PassCounters {
    pub materialised: usize,
    pub routed: usize,
    pub removed_local: usize,
    pub removed_routed: usize,
    pub backoff_skipped: usize,
    /// Stale incarnations torn down for a rebuild.
    pub stale: usize,
    /// Offsets reclaimed of consumer groups that were deleted while their
    /// topic survived.
    pub cg_offsets_purged: usize,
    /// Delete watermarks that the local segments do not follow yet.
    pub trims_pending: usize,
    /// Namespaces whose parked frames were answered.
    pub parked_reclaimed: usize,
    /// Rebuilds that wait for a removal to finish.
    pub deferred: usize,
}

impl PassCounters {
    /// The sum of all counters.
    pub open spec fn sum(self) -> int {
        self.materialised + self.routed + self.removed_local + self.removed_routed
            + self.backoff_skipped + self.stale + self.cg_offsets_purged + self.trims_pending
            + self.parked_reclaimed + self.deferred
    }

    /// Whether one more can be counted.
    pub open spec fn has_room(self) -> bool {
        self.sum() < usize::MAX
    }

    /// The sum of all counters.
    pub fn total(&self) -> (total: usize)
        requires
            self.sum() <= usize::MAX,
        ensures
            total == self.sum(),
    {
        self.materialised + self.routed + self.removed_local + self.removed_routed
            + self.backoff_skipped + self.stale + self.cg_offsets_purged + self.trims_pending
            + self.deferred + self.parked_reclaimed
    }
}

/// The counters of a pass that has done nothing.
pub open spec fn no_work() -> PassCounters {
    PassCounters {
        materialised: 0,
        routed: 0,
        removed_local: 0,
        removed_routed: 0,
        backoff_skipped: 0,
        stale: 0,
        cg_offsets_purged: 0,
        trims_pending: 0,
        parked_reclaimed: 0,
        deferred: 0,
    }
}

impl Default for PassCounters {
    fn default() -> (counters: Self)
        ensures
            counters == no_work(),
    {
        PassCounters {
            materialised: 0,
            routed: 0,
            removed_local: 0,
            removed_routed: 0,
            backoff_skipped: 0,
            stale: 0,
            cg_offsets_purged: 0,
            trims_pending: 0,
            parked_reclaimed: 0,
            deferred: 0,
        }
    }
}

} // verus!
