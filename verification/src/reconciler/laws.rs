//! What holds of the reconciler across its steps and passes.
use crate::namespace::IggyNamespace;
use crate::reconciler::additions::{addition_counted, addition_for, Addition, NamespaceView};
use crate::reconciler::counters::PassCounters;
use crate::reconciler::ctx::ReconcilerCtx;
use crate::reconciler::failures::{
    after_failure, after_success, backed_off, backoff_after, doubled, still_known, FailureCause,
    FailureRecord, BACKOFF_BASE, BACKOFF_MAX,
};
use crate::reconciler::groups::{
    completable, dead_groups, GroupOffsets, PendingRevocation,
};
use crate::reconciler::parked::parked_plan_for;
use crate::reconciler::removals::{
    after_delete, ghosts, removal_op, routed_ghosts_of, teardown_for,
};
use crate::reconciler::sets::group_is_live;
use crate::reconciler::snapshot::{
    partition_targets, stream_targets, topic_targets, StreamMeta, TargetEntry, TopicMeta,
};
use vstd::prelude::*;

verus! {

/// Failures by namespace and cause.
pub type Failures = Map<(IggyNamespace, FailureCause), FailureRecord>;

/// The wait between attempts is a second at least, a minute at most, and never
/// shrinks as attempts fail.
pub proof fn law_backoff_grows_within_bounds(attempts: u32, more: u32)
    requires
        attempts <= more,
    ensures
        BACKOFF_BASE <= backoff_after(attempts) <= backoff_after(more) <= BACKOFF_MAX,
{
    reveal_with_fuel(doubled, 8);
}

/// After a failure the attempt waits, and not longer than a minute.
pub proof fn law_failure_delays_the_next_attempt(
    failures: Failures,
    namespace: IggyNamespace,
    cause: FailureCause,
    now: u64,
    later: u64,
)
    requires
        now + BACKOFF_MAX <= u64::MAX,
    ensures
        later < now + BACKOFF_BASE ==> backed_off(
            after_failure(failures, namespace, cause, now),
            namespace,
            cause,
            later,
        ),
        later >= now + BACKOFF_MAX ==> !backed_off(
            after_failure(failures, namespace, cause, now),
            namespace,
            cause,
            later,
        ),
{
    let attempts = after_failure(failures, namespace, cause, now)[(namespace, cause)].attempts;
    law_backoff_grows_within_bounds(attempts, attempts);
}

/// After a success the attempt need not wait.
pub proof fn law_success_clears_the_backoff(
    failures: Failures,
    namespace: IggyNamespace,
    cause: FailureCause,
    now: u64,
)
    ensures
        !backed_off(after_success(failures, namespace, cause), namespace, cause, now),
{
}

/// What happens to one namespace under one cause changes nothing for another
/// namespace or the other cause: a delete that keeps failing does not throttle
/// a build.
pub proof fn law_budgets_are_independent(
    failures: Failures,
    namespace: IggyNamespace,
    cause: FailureCause,
    other: IggyNamespace,
    other_cause: FailureCause,
    failed_at: u64,
    now: u64,
)
    requires
        (namespace, cause) != (other, other_cause),
    ensures
        backed_off(after_failure(failures, namespace, cause, failed_at), other, other_cause, now)
            == backed_off(failures, other, other_cause, now),
        backed_off(after_success(failures, namespace, cause), other, other_cause, now)
            == backed_off(failures, other, other_cause, now),
{
}

/// What is recorded after attempts that failed at `times`, one after the other.
pub open spec fn after_failures(
    failures: Failures,
    namespace: IggyNamespace,
    cause: FailureCause,
    times: Seq<u64>,
) -> Failures
    decreases times.len(),
{
    if times.len() == 0 {
        failures
    } else {
        after_failure(
            after_failures(failures, namespace, cause, times.drop_last()),
            namespace,
            cause,
            times.last(),
        )
    }
}

/// The attempts that are on record after `failed` failures in a row.
pub open spec fn counted_attempts(failed: nat) -> u32 {
    if failed > u32::MAX {
        u32::MAX
    } else {
        failed as u32
    }
}

proof fn lemma_failures_count(
    failures: Failures,
    namespace: IggyNamespace,
    cause: FailureCause,
    times: Seq<u64>,
)
    requires
        !failures.contains_key((namespace, cause)),
        times.len() > 0,
    ensures
        ({
            let after = after_failures(failures, namespace, cause, times);
            let attempts = counted_attempts(times.len());
            &&& after == failures.insert((namespace, cause), after[(namespace, cause)])
            &&& after[(namespace, cause)] == (FailureRecord {
                attempts,
                next_retry_at: (times.last() + backoff_after(attempts)) as u64,
            })
        }),
    decreases times.len(),
{
    let earlier = after_failures(failures, namespace, cause, times.drop_last());
    let after = after_failures(failures, namespace, cause, times);
    if times.len() == 1 {
        assert(earlier == failures);
    } else {
        lemma_failures_count(failures, namespace, cause, times.drop_last());
    }
    assert(after =~= failures.insert((namespace, cause), after[(namespace, cause)]));
}

/// After attempts that failed in a row, and none on record before them, the
/// next waits until the backoff of that many failures has passed since the
/// last, and no longer. Other namespaces and the other cause wait as they did
/// before. A success ends the wait, and the failure after it waits a second
/// again.
pub proof fn law_backoff_follows_the_failures_in_a_row(
    failures: Failures,
    namespace: IggyNamespace,
    cause: FailureCause,
    times: Seq<u64>,
    other: IggyNamespace,
    other_cause: FailureCause,
    failed_again_at: u64,
    now: u64,
)
    requires
        !failures.contains_key((namespace, cause)),
        times.len() > 0,
        times.last() + BACKOFF_MAX <= u64::MAX,
        failed_again_at + BACKOFF_MAX <= u64::MAX,
    ensures
        ({
            let failed = after_failures(failures, namespace, cause, times);
            let cleared = after_success(failed, namespace, cause);
            let anew = after_failure(cleared, namespace, cause, failed_again_at);
            &&& backed_off(failed, namespace, cause, now) <==> now < times.last() + backoff_after(
                counted_attempts(times.len()),
            )
            &&& (other, other_cause) != (namespace, cause) ==> backed_off(
                failed,
                other,
                other_cause,
                now,
            ) == backed_off(failures, other, other_cause, now)
            &&& cleared == failures
            &&& !backed_off(cleared, namespace, cause, now)
            &&& backed_off(anew, namespace, cause, now) <==> now < failed_again_at + BACKOFF_BASE
        }),
{
    let failed = after_failures(failures, namespace, cause, times);
    let attempts = counted_attempts(times.len());
    lemma_failures_count(failures, namespace, cause, times);
    law_backoff_grows_within_bounds(attempts, attempts);
    assert(after_success(failed, namespace, cause) =~= failures);
    assert(backoff_after(1) == BACKOFF_BASE) by {
        reveal_with_fuel(doubled, 2);
    }
}

/// Pruning keeps every record of a known namespace as it is, and no other.
pub proof fn law_pruning_forgets_unknown_namespaces_only(
    failures: Failures,
    target: Set<IggyNamespace>,
    local: Set<IggyNamespace>,
    namespace: IggyNamespace,
    cause: FailureCause,
    now: u64,
)
    ensures
        backed_off(still_known(failures, target, local), namespace, cause, now) == (backed_off(
            failures,
            namespace,
            cause,
            now,
        ) && (target.contains(namespace) || local.contains(namespace))),
{
}

/// A pass that did anything does not let the next one be skipped, whatever the
/// revision.
pub proof fn law_working_pass_forces_another(
    before: ReconcilerCtx,
    after: ReconcilerCtx,
    revision: u64,
    target: Set<IggyNamespace>,
    local: Set<IggyNamespace>,
    counters: PassCounters,
    next_revision: u64,
    has_parked_frames: bool,
)
    requires
        before.finishes_as(after, revision, target, local, counters),
        counters.sum() > 0,
    ensures
        !after.skips(next_revision, has_parked_frames),
{
}

/// After a pass that found nothing to do, a pass is skipped exactly while the
/// revision stays, no failure is left and no frame is parked.
pub proof fn law_quiet_pass_arms_the_skip(
    before: ReconcilerCtx,
    after: ReconcilerCtx,
    revision: u64,
    target: Set<IggyNamespace>,
    local: Set<IggyNamespace>,
    counters: PassCounters,
    next_revision: u64,
    has_parked_frames: bool,
)
    requires
        before.finishes_as(after, revision, target, local, counters),
        counters.sum() == 0,
    ensures
        after.skips(next_revision, has_parked_frames) <==> {
            &&& next_revision == revision
            &&& still_known(before.failure_state@, target, local) == Map::<
                (IggyNamespace, FailureCause),
                FailureRecord,
            >::empty()
            &&& !has_parked_frames
        },
{
}

/// A failure that is still on record keeps the passes going, whatever the
/// revision: what failed is tried again.
pub proof fn law_failure_forces_another_pass(
    before: ReconcilerCtx,
    after: ReconcilerCtx,
    revision: u64,
    target: Set<IggyNamespace>,
    local: Set<IggyNamespace>,
    counters: PassCounters,
    namespace: IggyNamespace,
    cause: FailureCause,
    next_revision: u64,
    has_parked_frames: bool,
)
    requires
        before.finishes_as(after, revision, target, local, counters),
        before.failure_state@.contains_key((namespace, cause)),
        target.contains(namespace) || local.contains(namespace),
    ensures
        !after.skips(next_revision, has_parked_frames),
{
    assert(after.failure_state@.contains_key((namespace, cause)));
}

/// Whether the shard holds for a committed namespace what it should: the
/// partition with the right epoch on its own shard, the routing row with the
/// right epoch on every other.
pub open spec fn converged(shard_id: u16, epoch: u64, view: NamespaceView) -> bool {
    &&& view.row_epoch == Some(epoch)
    &&& if view.materialised {
        !view.tombstoned
    } else {
        view.owner != shard_id
    }
}

/// A namespace needs no work exactly where it has converged, and then nothing
/// is counted; whatever else is found is counted, torn down or built.
pub proof fn law_converged_namespace_needs_nothing(
    shard_id: u16,
    failures: Failures,
    namespace: IggyNamespace,
    epoch: u64,
    view: NamespaceView,
    now: u64,
    counters: PassCounters,
)
    requires
        counters.has_room(),
    ensures
        ({
            let addition = addition_for(shard_id, failures, namespace, epoch, view, now);
            &&& converged(shard_id, epoch, view) <==> addition is Keep || addition is AlreadyRouted
            &&& converged(shard_id, epoch, view) ==> addition_counted(counters, addition)
                == counters
            &&& addition_counted(counters, addition).sum() > counters.sum() || converged(
                shard_id,
                epoch,
                view,
            ) || addition is Build || addition is RetryTeardown
        }),
{
}

/// A shard builds only what hashes to it, and writes a routing row only for
/// what hashes to another.
pub proof fn law_only_own_namespaces_are_built(
    shard_id: u16,
    failures: Failures,
    namespace: IggyNamespace,
    epoch: u64,
    view: NamespaceView,
    now: u64,
)
    ensures
        addition_for(shard_id, failures, namespace, epoch, view, now) is Build ==> view.owner
            == shard_id && !view.materialised,
        addition_for(shard_id, failures, namespace, epoch, view, now) is Route ==> view.owner
            != shard_id && !view.materialised,
{
}

/// Data that hashes to another shard is never deleted: the teardown is
/// refused, whatever failed before.
pub proof fn law_peer_data_is_never_deleted(
    shard_id: u16,
    failures: Failures,
    namespace: IggyNamespace,
    hash_owner: u16,
    now: u64,
)
    ensures
        hash_owner != shard_id <==> teardown_for(shard_id, failures, namespace, hash_owner, now)
            is RefusePeerOwned,
        teardown_for(shard_id, failures, namespace, hash_owner, now) is Fence ==> hash_owner
            == shard_id,
{
}

/// A removal is under way exactly where no failed delete is on record.
pub proof fn law_delete_record_means_no_removal_under_way(
    failures: Failures,
    namespace: IggyNamespace,
    deleted: bool,
    now: u64,
)
    ensures
        removal_op(namespace, deleted) is Some <==> !after_delete(
            failures,
            namespace,
            deleted,
            now,
        ).contains_key((namespace, FailureCause::Delete)),
{
}

/// A fenced partition that is committed again is not left fenced for good: its
/// rebuild waits where the delete went through, and the teardown is tried
/// again where it did not.
pub proof fn law_fenced_partition_recovers(
    shard_id: u16,
    failures: Failures,
    namespace: IggyNamespace,
    epoch: u64,
    view: NamespaceView,
    deleted: bool,
    deleted_at: u64,
    now: u64,
)
    requires
        view.materialised,
        view.tombstoned,
        view.owner == shard_id,
        deleted_at + BACKOFF_MAX <= now,
    ensures
        ({
            let after = after_delete(failures, namespace, deleted, deleted_at);
            let addition = addition_for(shard_id, after, namespace, epoch, view, now);
            &&& deleted ==> addition is Defer
            &&& !deleted ==> addition is RetryTeardown && teardown_for(
                shard_id,
                after,
                namespace,
                view.owner,
                now,
            ) is Fence
        }),
{
    if !deleted {
        law_failure_delays_the_next_attempt(
            failures,
            namespace,
            FailureCause::Delete,
            deleted_at,
            now,
        );
    }
}

/// Once a fenced partition is dropped it is rebuilt, unless a build of its own
/// failed not long ago: the failed deletes before do not count.
pub proof fn law_removed_partition_is_rebuilt(
    shard_id: u16,
    failures: Failures,
    namespace: IggyNamespace,
    epoch: u64,
    view: NamespaceView,
    deleted_at: u64,
    now: u64,
)
    requires
        !view.materialised,
        view.owner == shard_id,
    ensures
        addition_for(
            shard_id,
            after_delete(failures, namespace, true, deleted_at),
            namespace,
            epoch,
            view,
            now,
        ) == (if backed_off(failures, namespace, FailureCause::Add, now) {
            Addition::BackedOff
        } else {
            Addition::Build
        }),
{
    law_budgets_are_independent(
        failures,
        namespace,
        FailureCause::Delete,
        namespace,
        FailureCause::Add,
        deleted_at,
        now,
    );
}

/// Frames are given up at once only on evidence that no partition will come
/// for them soon: it belongs to another shard, or its build failed not long
/// ago. Whether the namespace is committed plays no part.
pub proof fn law_parked_frames_are_given_up_on_evidence_only(
    shard_id: u16,
    failures: Failures,
    namespace: IggyNamespace,
    materialised: bool,
    owner: u16,
    now: u64,
)
    ensures
        parked_plan_for(shard_id, failures, namespace, materialised, owner, now) is Reclaim <==> {
            &&& !materialised
            &&& owner != shard_id || backed_off(failures, namespace, FailureCause::Add, now)
        },
        parked_plan_for(shard_id, failures, namespace, materialised, owner, now) is Leave
            <==> materialised,
{
}

/// The ghosts are the held namespaces that are not committed, and no other.
pub proof fn law_ghosts_are_uncommitted(
    local: Seq<IggyNamespace>,
    target: Set<IggyNamespace>,
    namespace: IggyNamespace,
)
    ensures
        ghosts(local, target).contains(namespace) <==> local.contains(namespace)
            && !target.contains(namespace),
{
    let keep = |found: IggyNamespace| !target.contains(found);
    lemma_filter_members(local, keep, namespace);
}

/// A routing row is dropped exactly where its namespace is neither committed
/// nor held.
pub proof fn law_rows_of_held_namespaces_stay(
    rows: Seq<IggyNamespace>,
    target: Set<IggyNamespace>,
    still_owned: Set<IggyNamespace>,
    namespace: IggyNamespace,
)
    ensures
        routed_ghosts_of(rows, target, still_owned).contains(namespace) <==> rows.contains(
            namespace,
        ) && !target.contains(namespace) && !still_owned.contains(namespace),
{
    let keep = |found: IggyNamespace| !target.contains(found) && !still_owned.contains(found);
    lemma_filter_members(rows, keep, namespace);
}

/// The offset of a group is reclaimed exactly where the topic no longer has
/// the group.
pub proof fn law_live_group_offsets_stay(
    live: Map<(usize, usize), Set<u64>>,
    namespace: IggyNamespace,
    stored: Seq<u64>,
    group_id: u64,
)
    ensures
        dead_groups(live, namespace, stored).contains(group_id) <==> stored.contains(group_id)
            && !group_is_live(live, namespace.stream_id, namespace.topic_id, group_id),
{
    let keep = |found: u64|
        !group_is_live(live, namespace.stream_id, namespace.topic_id, found);
    lemma_filter_members(stored, keep, group_id);
}

proof fn lemma_filter_members<T>(elements: Seq<T>, keep: spec_fn(T) -> bool, element: T)
    ensures
        elements.filter(keep).contains(element) <==> elements.contains(element) && keep(element),
    decreases elements.len(),
{
    reveal(Seq::filter);
    if elements.len() > 0 {
        let shorter = elements.drop_last();
        lemma_filter_members(shorter, keep, element);
        assert(elements =~= shorter.push(elements.last()));
        let kept = shorter.filter(keep);
        if keep(elements.last()) {
            assert(kept.push(elements.last()).last() == elements.last());
            assert forall|found: T| kept.push(elements.last()).contains(found) <==> kept.contains(
                found,
            ) || found == elements.last() by {
                lemma_push_members(kept, elements.last(), found);
            }
        }
        lemma_push_members(shorter, elements.last(), element);
    }
}

proof fn lemma_push_members<T>(elements: Seq<T>, last: T, element: T)
    ensures
        elements.push(last).contains(element) <==> elements.contains(element) || element == last,
{
    let all = elements.push(last);
    if elements.contains(element) {
        let at = choose|at: int| 0 <= at < elements.len() && elements[at] == element;
        assert(all[at] == element);
    }
    if element == last {
        assert(all[elements.len() as int] == element);
    }
    if all.contains(element) {
        let at = choose|at: int| 0 <= at < all.len() && all[at] == element;
        if at < elements.len() {
            assert(elements[at] == element);
        }
    }
}

/// A revocation that can be completed stays so as time passes.
pub proof fn law_completable_stays_completable(
    revocation: PendingRevocation,
    offsets: GroupOffsets,
    now: u64,
    later: u64,
    timeout: u64,
)
    requires
        now <= later,
        completable(revocation, offsets, now, timeout),
    ensures
        completable(revocation, offsets, later, timeout),
{
}

/// A partition is not taken from a member that still has uncommitted messages
/// of it, before its time is up.
pub proof fn law_undrained_member_keeps_its_partition(
    revocation: PendingRevocation,
    offsets: GroupOffsets,
    polled: u64,
    now: u64,
    timeout: u64,
)
    requires
        offsets.last_polled == Some(polled),
        offsets.committed is None || offsets.committed->0 < polled,
        now < revocation.created_at + timeout,
        timeout > 0,
    ensures
        !completable(revocation, offsets, now, timeout),
{
}

/// Every committed partition is a target, with its own epoch.
pub proof fn law_committed_partition_is_a_target(
    streams: Seq<StreamMeta>,
    stream: int,
    topic: int,
    partition: int,
)
    requires
        0 <= stream < streams.len(),
        0 <= topic < streams[stream].topics@.len(),
        0 <= partition < streams[stream].topics@[topic].partitions@.len(),
    ensures
        ({
            let meta = streams[stream].topics@[topic];
            let entry: TargetEntry = (
                IggyNamespace {
                    stream_id: streams[stream].id,
                    topic_id: meta.id,
                    partition_id: meta.partitions@[partition].id,
                },
                meta.partitions@[partition].created_revision,
            );
            stream_targets(streams).contains(entry)
        }),
    decreases streams.len(),
{
    let meta = streams[stream].topics@[topic];
    let entry: TargetEntry = (
        IggyNamespace {
            stream_id: streams[stream].id,
            topic_id: meta.id,
            partition_id: meta.partitions@[partition].id,
        },
        meta.partitions@[partition].created_revision,
    );
    let last = topic_targets(streams.last().id, streams.last().topics@);
    let earlier = stream_targets(streams.drop_last());
    if stream == streams.len() - 1 {
        lemma_topic_target(streams[stream].id, streams[stream].topics@, topic, partition);
        lemma_concat_members(earlier, last, entry);
    } else {
        law_committed_partition_is_a_target(streams.drop_last(), stream, topic, partition);
        lemma_concat_members(earlier, last, entry);
    }
}

proof fn lemma_topic_target(
    stream_id: usize,
    topics: Seq<TopicMeta>,
    topic: int,
    partition: int,
)
    requires
        0 <= topic < topics.len(),
        0 <= partition < topics[topic].partitions@.len(),
    ensures
        topic_targets(stream_id, topics).contains(
            (
                IggyNamespace {
                    stream_id,
                    topic_id: topics[topic].id,
                    partition_id: topics[topic].partitions@[partition].id,
                },
                topics[topic].partitions@[partition].created_revision,
            ),
        ),
    decreases topics.len(),
{
    let entry: TargetEntry = (
        IggyNamespace {
            stream_id,
            topic_id: topics[topic].id,
            partition_id: topics[topic].partitions@[partition].id,
        },
        topics[topic].partitions@[partition].created_revision,
    );
    let last = partition_targets(stream_id, topics.last().id, topics.last().partitions@);
    let earlier = topic_targets(stream_id, topics.drop_last());
    if topic == topics.len() - 1 {
        assert(last[partition] == entry);
    } else {
        lemma_topic_target(stream_id, topics.drop_last(), topic, partition);
    }
    lemma_concat_members(earlier, last, entry);
}

proof fn lemma_concat_members<T>(first: Seq<T>, second: Seq<T>, element: T)
    ensures
        first.contains(element) || second.contains(element) ==> (first + second).contains(element),
{
    let all = first + second;
    if first.contains(element) {
        let at = choose|at: int| 0 <= at < first.len() && first[at] == element;
        assert(all[at] == element);
    } else if second.contains(element) {
        let at = choose|at: int| 0 <= at < second.len() && second[at] == element;
        assert(all[first.len() + at] == element);
    }
}

} // verus!
