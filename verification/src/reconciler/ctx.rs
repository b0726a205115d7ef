//! The reconciler's own state.
use crate::namespace::IggyNamespace;
use crate::reconciler::counters::PassCounters;
use crate::reconciler::failures::{
    after_failure, after_success, backed_off, next_backoff, still_known, FailureCause,
    FailureRecord, FailureState, BACKOFF_MAX,
};
use crate::reconciler::sets::NamespaceSet;
use vstd::prelude::*;

verus! {

/// What a shard's reconciler knows and remembers from pass to pass.
pub struct ReconcilerCtx {
    pub shard_id: u16,
    pub total_shards: u16,
    pub cluster_id: u128,
    pub self_replica_id: u8,
    pub replica_count: u8,
    pub failure_state: FailureState,
    /// The metadata revision that the last full pass saw.
    pub last_revision: Option<u64>,
    /// Whether the last full pass found nothing to do.
    pub last_pass_noop: bool,
}

impl ReconcilerCtx {
    /// A reconciler that has run no pass yet.
    pub fn new(
        shard_id: u16,
        total_shards: u16,
        cluster_id: u128,
        self_replica_id: u8,
        replica_count: u8,
    ) -> (ctx: Self)
        ensures
            ctx.shard_id == shard_id,
            ctx.total_shards == total_shards,
            ctx.cluster_id == cluster_id,
            ctx.self_replica_id == self_replica_id,
            ctx.replica_count == replica_count,
            ctx.failure_state@ == Map::<(IggyNamespace, FailureCause), FailureRecord>::empty(),
            ctx.last_revision is None,
            !ctx.last_pass_noop,
    {
        ReconcilerCtx {
            shard_id,
            total_shards,
            cluster_id,
            self_replica_id,
            replica_count,
            failure_state: FailureState::new(),
            last_revision: None,
            last_pass_noop: false,
        }
    }

    /// Whether all but the failures is as in `other`.
    pub open spec fn differs_in_failures_only(self, other: Self) -> bool {
        &&& self.shard_id == other.shard_id
        &&& self.total_shards == other.total_shards
        &&& self.cluster_id == other.cluster_id
        &&& self.self_replica_id == other.self_replica_id
        &&& self.replica_count == other.replica_count
        &&& self.last_revision == other.last_revision
        &&& self.last_pass_noop == other.last_pass_noop
    }

    /// Whether an attempt has to wait.
    pub fn is_backed_off(&self, namespace: IggyNamespace, cause: FailureCause, now: u64) -> (wait:
        bool)
        ensures
            wait == backed_off(self.failure_state@, namespace, cause, now),
    {
        match self.failure_state.get(namespace, cause) {
            Some(record) => record.next_retry_at > now,
            None => false,
        }
    }

    /// Whether a delete of `namespace` failed and none has succeeded since.
    /// A successful delete clears the record when it enqueues the removal, so
    /// a record also says that no removal of `namespace` is under way.
    pub fn has_pending_delete_failure(&self, namespace: IggyNamespace) -> (pending: bool)
        ensures
            pending == self.failure_state@.contains_key((namespace, FailureCause::Delete)),
    {
        self.failure_state.get(namespace, FailureCause::Delete).is_some()
    }

    /// Forgets the failures of an attempt that succeeded.
    pub fn record_success(&mut self, namespace: IggyNamespace, cause: FailureCause)
        ensures
            final(self).failure_state@ == after_success(
                old(self).failure_state@,
                namespace,
                cause,
            ),
            final(self).differs_in_failures_only(*old(self)),
    {
        self.failure_state.remove(namespace, cause);
    }

    /// Counts a failed attempt and sets the time of the next.
    pub fn record_failure(&mut self, namespace: IggyNamespace, cause: FailureCause, now: u64)
        requires
            now + BACKOFF_MAX <= u64::MAX,
        ensures
            final(self).failure_state@ == after_failure(
                old(self).failure_state@,
                namespace,
                cause,
                now,
            ),
            final(self).differs_in_failures_only(*old(self)),
    {
        let before: u32 = match self.failure_state.get(namespace, cause) {
            Some(record) => record.attempts,
            None => 0,
        };
        let attempts: u32 = if before == u32::MAX {
            u32::MAX
        } else {
            before + 1
        };
        let next_retry_at: u64 = now + next_backoff(attempts);
        self.failure_state.insert(namespace, cause, FailureRecord { attempts, next_retry_at });
    }

    /// Forgets the failures of every namespace that is neither committed nor
    /// held locally, so that they do not throttle a later one of that name.
    pub fn prune_failure_state_stale(&mut self, target: &NamespaceSet, local: &NamespaceSet)
        ensures
            final(self).failure_state@ == still_known(old(self).failure_state@, target@, local@),
            final(self).differs_in_failures_only(*old(self)),
    {
        self.failure_state.retain_known(target, local);
    }

    /// Whether a pass has nothing to look at: the last one saw this revision
    /// and found nothing to do, nothing waits for a retry, and no frame is
    /// parked.
    pub open spec fn skips(self, revision: u64, has_parked_frames: bool) -> bool {
        &&& self.last_revision == Some(revision)
        &&& self.last_pass_noop
        &&& self.failure_state@ == Map::<(IggyNamespace, FailureCause), FailureRecord>::empty()
        &&& !has_parked_frames
    }

    /// Whether a pass has nothing to look at.
    pub fn should_skip(&self, revision: u64, has_parked_frames: bool) -> (skip: bool)
        ensures
            skip == self.skips(revision, has_parked_frames),
    {
        let seen: bool = match self.last_revision {
            Some(last) => last == revision,
            None => false,
        };
        seen && self.last_pass_noop && self.failure_state.is_empty() && !has_parked_frames
    }

    /// What a full pass leaves behind: the failures of known namespaces, the
    /// revision that it saw, and whether it found nothing to do.
    pub open spec fn finishes_as(
        self,
        after: Self,
        revision: u64,
        target: Set<IggyNamespace>,
        local: Set<IggyNamespace>,
        counters: PassCounters,
    ) -> bool {
        &&& after.failure_state@ == still_known(self.failure_state@, target, local)
        &&& after.last_revision == Some(revision)
        &&& after.last_pass_noop == (counters.sum() == 0)
        &&& after.shard_id == self.shard_id
        &&& after.total_shards == self.total_shards
        &&& after.cluster_id == self.cluster_id
        &&& after.self_replica_id == self.self_replica_id
        &&& after.replica_count == self.replica_count
    }

    /// Ends a full pass: drops stale failures and remembers what the pass saw
    /// and whether it found nothing to do.
    pub fn finish_pass(
        &mut self,
        revision: u64,
        target: &NamespaceSet,
        local: &NamespaceSet,
        counters: &PassCounters,
    )
        requires
            counters.sum() <= usize::MAX,
        ensures
            old(self).finishes_as(*final(self), revision, target@, local@, *counters),
    {
        self.prune_failure_state_stale(target, local);
        let did_work: bool = counters.total() > 0;
        self.last_revision = Some(revision);
        self.last_pass_noop = !did_work;
    }
}

} // verus!
