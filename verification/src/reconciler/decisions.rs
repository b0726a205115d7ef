//! What each decision of the reconciler comes to, told from what is committed
//! and what the shard holds.
use crate::namespace::IggyNamespace;
use crate::reconciler::additions::{
    addition_counted, addition_for, Addition, NamespaceView, ReconcileOp,
};
use crate::reconciler::counters::{no_work, PassCounters};
use crate::reconciler::ctx::ReconcilerCtx;
use crate::reconciler::enforcement::{
    pending_trims, purges_of, trims_of, Enforcement, PurgeView, TrimView,
};
use crate::reconciler::failures::{
    after_failure, after_success, backed_off, backoff_after, doubled, still_known, FailureCause,
    FailureRecord,
};
use crate::reconciler::groups::{
    completable, completed_revocations, dead_groups, GroupOffsets, PendingRevocation,
    RevocationView,
};
use crate::reconciler::laws::{law_backoff_grows_within_bounds, Failures};
use crate::reconciler::parked::parked_plan_for;
use crate::reconciler::pass::{step_after, step_at, PassStep};
use crate::reconciler::removals::{
    after_delete, ghosts, removal_op, routed_ghosts_of, teardown_for,
};
use crate::reconciler::sets::group_is_live;
use crate::reconciler::snapshot::{
    partition_targets, stream_live_groups, stream_targets, topic_live_groups, topic_targets,
    StreamMeta, TargetEntry, TopicMeta,
};
use crate::reconciler::wake::{action_on, WakeEvent};
use crate::sequences::{lemma_filter_map_push, lemma_filter_push};
use vstd::prelude::*;

verus! {

/// Whether committed metadata holds a stream and a topic with the given ids
/// whose consumer groups contain the given one.
pub open spec fn group_is_committed(
    streams: Seq<StreamMeta>,
    stream_id: usize,
    topic_id: usize,
    group_id: u64,
) -> bool {
    exists|i: int, j: int|
        0 <= i < streams.len() && 0 <= j < streams[i].topics@.len() && streams[i].id == stream_id
            && (#[trigger] streams[i].topics@[j]).id == topic_id
            && streams[i].topics@[j].group_ids@.contains(group_id)
}

/// Whether no two topics of a stream have the same id.
pub open spec fn topics_differ(topics: Seq<TopicMeta>) -> bool {
    forall|i: int, j: int|
        0 <= i < j < topics.len() ==> (#[trigger] topics[i]).id != (#[trigger] topics[j]).id
}

/// Whether no two streams have the same id, and no two topics of one stream.
pub open spec fn ids_differ(streams: Seq<StreamMeta>) -> bool {
    &&& forall|i: int, j: int|
        0 <= i < j < streams.len() ==> (#[trigger] streams[i]).id != (#[trigger] streams[j]).id
    &&& forall|i: int| 0 <= i < streams.len() ==> topics_differ((#[trigger] streams[i]).topics@)
}

proof fn lemma_topic_groups(
    before: Map<(usize, usize), Set<u64>>,
    stream_id: usize,
    topics: Seq<TopicMeta>,
    asked: usize,
    topic_id: usize,
    group_id: u64,
)
    requires
        topics_differ(topics),
        forall|topic: usize| !#[trigger] before.contains_key((stream_id, topic)),
    ensures
        asked != stream_id ==> group_is_live(
            topic_live_groups(before, stream_id, topics),
            asked,
            topic_id,
            group_id,
        ) == group_is_live(before, asked, topic_id, group_id),
        group_is_live(
            topic_live_groups(before, stream_id, topics),
            stream_id,
            topic_id,
            group_id,
        ) <==> exists|j: int|
            0 <= j < topics.len() && (#[trigger] topics[j]).id == topic_id
                && topics[j].group_ids@.contains(group_id),
        forall|topic: usize|
            #[trigger] topic_live_groups(before, stream_id, topics).contains_key(
                (stream_id, topic),
            ) ==> exists|j: int| 0 <= j < topics.len() && (#[trigger] topics[j]).id == topic,
        forall|stream: usize, topic: usize|
            stream != stream_id ==> (#[trigger] topic_live_groups(
                before,
                stream_id,
                topics,
            ).contains_key((stream, topic)) == before.contains_key((stream, topic))),
    decreases topics.len(),
{
    if topics.len() > 0 {
        let shorter = topics.drop_last();
        let last = topics.last();
        assert forall|i: int, j: int| 0 <= i < j < shorter.len() implies (
        #[trigger] shorter[i]).id != (#[trigger] shorter[j]).id by {
            assert(topics[i].id != topics[j].id);
        }
        lemma_topic_groups(before, stream_id, shorter, asked, topic_id, group_id);
        let earlier = topic_live_groups(before, stream_id, shorter);
        let after = topic_live_groups(before, stream_id, topics);
        let n = topics.len() - 1;
        assert(topics[n] == last);
        assert forall|j: int| 0 <= j < shorter.len() implies shorter[j]
            == #[trigger] topics[j] by {}
        // The last topic's id is that of no other.
        assert forall|j: int| 0 <= j < n implies (#[trigger] topics[j]).id != last.id by {
            assert(topics[j].id != topics[n].id);
        }
        assert forall|topic: usize| #[trigger] after.contains_key((stream_id, topic)) implies exists|
            j: int,
        |
            0 <= j < topics.len() && (#[trigger] topics[j]).id == topic by {
            if topic == last.id {
                assert(topics[n].id == topic);
            } else {
                assert(earlier.contains_key((stream_id, topic)));
                let j = choose|j: int|
                    0 <= j < shorter.len() && (#[trigger] shorter[j]).id == topic;
                assert(topics[j].id == topic);
            }
        }
        if topic_id == last.id {
            if earlier.contains_key((stream_id, topic_id)) {
                let j = choose|j: int|
                    0 <= j < shorter.len() && (#[trigger] shorter[j]).id == topic_id;
                assert(topics[j].id != topics[n].id);
            }
            if group_is_live(after, stream_id, topic_id, group_id) {
                assert(last.group_ids@.contains(group_id));
            }
            if last.group_ids@.contains(group_id) {
                assert(last.group_ids@.to_set().contains(group_id));
                assert(topics[n].group_ids@.contains(group_id));
            }
        } else {
            if group_is_live(after, stream_id, topic_id, group_id) {
                assert(group_is_live(earlier, stream_id, topic_id, group_id));
                let j = choose|j: int|
                    0 <= j < shorter.len() && (#[trigger] shorter[j]).id == topic_id
                        && shorter[j].group_ids@.contains(group_id);
                assert(topics[j].id == topic_id && topics[j].group_ids@.contains(group_id));
            }
            if exists|j: int|
                0 <= j < topics.len() && (#[trigger] topics[j]).id == topic_id
                    && topics[j].group_ids@.contains(group_id) {
                let j = choose|j: int|
                    0 <= j < topics.len() && (#[trigger] topics[j]).id == topic_id
                        && topics[j].group_ids@.contains(group_id);
                assert(shorter[j].id == topic_id && shorter[j].group_ids@.contains(group_id));
            }
        }
    }
}

/// A consumer group counts as live for a stream and a topic exactly where the
/// committed metadata holds it there, in whichever stream of the snapshot that
/// is. A topic that no stream has, or that has no groups, has no live ones.
pub proof fn law_group_is_live_where_it_is_committed(
    streams: Seq<StreamMeta>,
    stream_id: usize,
    topic_id: usize,
    group_id: u64,
)
    requires
        ids_differ(streams),
    ensures
        group_is_live(stream_live_groups(streams), stream_id, topic_id, group_id)
            <==> group_is_committed(streams, stream_id, topic_id, group_id),
        forall|stream: usize, topic: usize|
            #[trigger] stream_live_groups(streams).contains_key((stream, topic)) ==> exists|
                i: int,
            |
                0 <= i < streams.len() && (#[trigger] streams[i]).id == stream,
    decreases streams.len(),
{
    let live = stream_live_groups(streams);
    if streams.len() > 0 {
        let shorter = streams.drop_last();
        let last = streams.last();
        let n = streams.len() - 1;
        assert(streams[n] == last);
        assert forall|i: int, j: int| 0 <= i < j < shorter.len() implies (
        #[trigger] shorter[i]).id != (#[trigger] shorter[j]).id by {
            assert(streams[i].id != streams[j].id);
        }
        assert forall|i: int| 0 <= i < shorter.len() implies topics_differ(
            (#[trigger] shorter[i]).topics@,
        ) by {
            assert(topics_differ(streams[i].topics@));
        }
        law_group_is_live_where_it_is_committed(shorter, stream_id, topic_id, group_id);
        let earlier = stream_live_groups(shorter);
        assert forall|topic: usize| !#[trigger] earlier.contains_key((last.id, topic)) by {
            if earlier.contains_key((last.id, topic)) {
                let i = choose|i: int|
                    0 <= i < shorter.len() && (#[trigger] shorter[i]).id == last.id;
                assert(streams[i].id != streams[n].id);
            }
        }
        assert(topics_differ(streams[n].topics@));
        lemma_topic_groups(earlier, last.id, last.topics@, stream_id, topic_id, group_id);
        assert forall|stream: usize, topic: usize|
            #[trigger] live.contains_key((stream, topic)) implies exists|i: int|
            0 <= i < streams.len() && (#[trigger] streams[i]).id == stream by {
            if stream == last.id {
                assert(streams[n].id == stream);
            } else {
                assert(earlier.contains_key((stream, topic)));
                let i = choose|i: int|
                    0 <= i < shorter.len() && (#[trigger] shorter[i]).id == stream;
                assert(streams[i].id == stream);
            }
        }
        if group_is_live(live, stream_id, topic_id, group_id) {
            if stream_id == last.id {
                let j = choose|j: int|
                    0 <= j < last.topics@.len() && (#[trigger] last.topics@[j]).id == topic_id
                        && last.topics@[j].group_ids@.contains(group_id);
                assert(streams[n].topics@[j].id == topic_id);
            } else {
                let (i, j) = choose|i: int, j: int|
                    0 <= i < shorter.len() && 0 <= j < shorter[i].topics@.len() && shorter[i].id
                        == stream_id && (#[trigger] shorter[i].topics@[j]).id == topic_id
                        && shorter[i].topics@[j].group_ids@.contains(group_id);
                assert(streams[i].topics@[j].id == topic_id);
            }
        }
        if group_is_committed(streams, stream_id, topic_id, group_id) {
            let (i, j) = choose|i: int, j: int|
                0 <= i < streams.len() && 0 <= j < streams[i].topics@.len() && streams[i].id
                    == stream_id && (#[trigger] streams[i].topics@[j]).id == topic_id
                    && streams[i].topics@[j].group_ids@.contains(group_id);
            if i == n {
                assert(last.topics@[j].id == topic_id);
            } else {
                assert(streams[i].id != streams[n].id);
                assert(shorter[i].topics@[j].id == topic_id);
            }
        }
    }
}

/// A stored offset is reclaimed exactly where no committed topic of that stream
/// and that id has its group, and the offsets to reclaim are listed in the
/// order in which they are stored.
pub proof fn law_only_offsets_of_deleted_groups_are_reclaimed(
    streams: Seq<StreamMeta>,
    namespace: IggyNamespace,
    stored: Seq<u64>,
    group_id: u64,
)
    requires
        ids_differ(streams),
    ensures
        ({
            let live = stream_live_groups(streams);
            &&& dead_groups(live, namespace, Seq::<u64>::empty()) == Seq::<u64>::empty()
            &&& dead_groups(live, namespace, stored.push(group_id)) == (if group_is_committed(
                streams,
                namespace.stream_id,
                namespace.topic_id,
                group_id,
            ) {
                dead_groups(live, namespace, stored)
            } else {
                dead_groups(live, namespace, stored).push(group_id)
            })
        }),
{
    let live = stream_live_groups(streams);
    law_group_is_live_where_it_is_committed(
        streams,
        namespace.stream_id,
        namespace.topic_id,
        group_id,
    );
    lemma_filter_push(
        stored,
        |found: u64| !group_is_live(live, namespace.stream_id, namespace.topic_id, found),
        group_id,
    );
}

/// How many partitions `topics` have.
pub open spec fn partitions_of_topics(topics: Seq<TopicMeta>) -> nat
    decreases topics.len(),
{
    if topics.len() == 0 {
        0
    } else {
        partitions_of_topics(topics.drop_last()) + topics.last().partitions@.len()
    }
}

/// How many partitions `streams` have.
pub open spec fn partitions_of_streams(streams: Seq<StreamMeta>) -> nat
    decreases streams.len(),
{
    if streams.len() == 0 {
        0
    } else {
        partitions_of_streams(streams.drop_last()) + partitions_of_topics(streams.last().topics@)
    }
}

/// Whether the committed metadata holds the partition of `entry`, created at
/// its epoch.
pub open spec fn partition_is_committed(streams: Seq<StreamMeta>, entry: TargetEntry) -> bool {
    exists|i: int, j: int, k: int|
        0 <= i < streams.len() && 0 <= j < streams[i].topics@.len() && 0 <= k
            < streams[i].topics@[j].partitions@.len() && streams[i].id == entry.0.stream_id
            && streams[i].topics@[j].id == entry.0.topic_id && (
        #[trigger] streams[i].topics@[j].partitions@[k]).id == entry.0.partition_id
            && streams[i].topics@[j].partitions@[k].created_revision == entry.1
}

proof fn lemma_topic_targets_are_committed(
    stream_id: usize,
    topics: Seq<TopicMeta>,
    entry: TargetEntry,
)
    ensures
        topic_targets(stream_id, topics).len() == partitions_of_topics(topics),
        topic_targets(stream_id, topics).contains(entry) ==> entry.0.stream_id == stream_id
            && exists|j: int, k: int|
            0 <= j < topics.len() && 0 <= k < topics[j].partitions@.len() && topics[j].id
                == entry.0.topic_id && (#[trigger] topics[j].partitions@[k]).id
                == entry.0.partition_id && topics[j].partitions@[k].created_revision == entry.1,
    decreases topics.len(),
{
    if topics.len() > 0 {
        let shorter = topics.drop_last();
        let last = topics.last();
        let n = topics.len() - 1;
        lemma_topic_targets_are_committed(stream_id, shorter, entry);
        let earlier = topic_targets(stream_id, shorter);
        let added = partition_targets(stream_id, last.id, last.partitions@);
        let all = topic_targets(stream_id, topics);
        if all.contains(entry) {
            let at = choose|at: int| 0 <= at < all.len() && all[at] == entry;
            if at < earlier.len() {
                assert(earlier[at] == entry);
                let (j, k) = choose|j: int, k: int|
                    0 <= j < shorter.len() && 0 <= k < shorter[j].partitions@.len()
                        && shorter[j].id == entry.0.topic_id && (
                    #[trigger] shorter[j].partitions@[k]).id == entry.0.partition_id
                        && shorter[j].partitions@[k].created_revision == entry.1;
                assert(topics[j].partitions@[k].id == entry.0.partition_id);
            } else {
                let k = at - earlier.len();
                assert(added[k] == entry);
                assert(topics[n].partitions@[k].id == entry.0.partition_id);
            }
        }
    }
}

proof fn lemma_stream_targets_are_committed(streams: Seq<StreamMeta>, entry: TargetEntry)
    ensures
        stream_targets(streams).len() == partitions_of_streams(streams),
        stream_targets(streams).contains(entry) ==> partition_is_committed(streams, entry),
    decreases streams.len(),
{
    if streams.len() > 0 {
        let shorter = streams.drop_last();
        let last = streams.last();
        let n = streams.len() - 1;
        lemma_stream_targets_are_committed(shorter, entry);
        lemma_topic_targets_are_committed(last.id, last.topics@, entry);
        let earlier = stream_targets(shorter);
        let added = topic_targets(last.id, last.topics@);
        let all = stream_targets(streams);
        if all.contains(entry) {
            let at = choose|at: int| 0 <= at < all.len() && all[at] == entry;
            if at < earlier.len() {
                assert(earlier[at] == entry);
                let (i, j, k) = choose|i: int, j: int, k: int|
                    0 <= i < shorter.len() && 0 <= j < shorter[i].topics@.len() && 0 <= k
                        < shorter[i].topics@[j].partitions@.len() && shorter[i].id
                        == entry.0.stream_id && shorter[i].topics@[j].id == entry.0.topic_id && (
                    #[trigger] shorter[i].topics@[j].partitions@[k]).id == entry.0.partition_id
                        && shorter[i].topics@[j].partitions@[k].created_revision == entry.1;
                assert(streams[i].topics@[j].partitions@[k].id == entry.0.partition_id);
            } else {
                assert(added[at - earlier.len()] == entry);
                let (j, k) = choose|j: int, k: int|
                    0 <= j < last.topics@.len() && 0 <= k < last.topics@[j].partitions@.len()
                        && last.topics@[j].id == entry.0.topic_id && (
                    #[trigger] last.topics@[j].partitions@[k]).id == entry.0.partition_id
                        && last.topics@[j].partitions@[k].created_revision == entry.1;
                assert(streams[n].topics@[j].partitions@[k].id == entry.0.partition_id);
            }
        }
    }
}

/// The targets are the committed partitions with the revision that created
/// them, of all streams and topics, and no other; they are as many as there are
/// partitions.
pub proof fn law_targets_are_the_committed_partitions(
    streams: Seq<StreamMeta>,
    entry: TargetEntry,
)
    ensures
        stream_targets(streams).contains(entry) <==> partition_is_committed(streams, entry),
        stream_targets(streams).len() == partitions_of_streams(streams),
{
    lemma_stream_targets_are_committed(streams, entry);
    if partition_is_committed(streams, entry) {
        let (i, j, k) = choose|i: int, j: int, k: int|
            0 <= i < streams.len() && 0 <= j < streams[i].topics@.len() && 0 <= k
                < streams[i].topics@[j].partitions@.len() && streams[i].id == entry.0.stream_id
                && streams[i].topics@[j].id == entry.0.topic_id && (
            #[trigger] streams[i].topics@[j].partitions@[k]).id == entry.0.partition_id
                && streams[i].topics@[j].partitions@[k].created_revision == entry.1;
        crate::reconciler::laws::law_committed_partition_is_a_target(streams, i, j, k);
        let meta = streams[i].topics@[j];
        let found: TargetEntry = (
            IggyNamespace {
                stream_id: streams[i].id,
                topic_id: meta.id,
                partition_id: meta.partitions@[k].id,
            },
            meta.partitions@[k].created_revision,
        );
        assert(found.0 == entry.0);
        assert(found == entry);
    }
}

/// What is done for a committed namespace: what is fenced is torn down again
/// where its delete is on record as failed, and waits where it is not; what is
/// held under the committed epoch is kept and under any other torn down; what
/// another shard owns is routed where its row is not current; and what is the
/// shard's own is built, unless a build failed not long ago.
pub proof fn law_addition_follows_what_is_held(
    shard_id: u16,
    failures: Failures,
    namespace: IggyNamespace,
    epoch: u64,
    view: NamespaceView,
    now: u64,
)
    ensures
        ({
            let addition = addition_for(shard_id, failures, namespace, epoch, view, now);
            let current = view.row_epoch == Some(epoch);
            let fenced = view.materialised && view.tombstoned;
            let held = view.materialised && !view.tombstoned;
            let failed_delete = failures.contains_key((namespace, FailureCause::Delete));
            let own = view.owner == shard_id;
            let waits = failures.contains_key((namespace, FailureCause::Add)) && now
                < failures[(namespace, FailureCause::Add)].next_retry_at;
            &&& addition is RetryTeardown <==> fenced && failed_delete
            &&& addition is Defer <==> fenced && !failed_delete
            &&& addition is Keep <==> held && current
            &&& addition is TearDownStale <==> held && !current
            &&& addition is AlreadyRouted <==> !view.materialised && !own && current
            &&& addition is Route <==> !view.materialised && !own && !current
            &&& addition is BackedOff <==> !view.materialised && own && waits
            &&& addition is Build <==> !view.materialised && own && !waits
        }),
{
}

/// An attempt waits exactly where its own cause is on record with a later time.
pub proof fn law_attempt_waits_for_its_own_record(
    failures: Failures,
    namespace: IggyNamespace,
    cause: FailureCause,
    now: u64,
)
    ensures
        backed_off(failures, namespace, cause, now) <==> failures.contains_key((namespace, cause))
            && now < failures[(namespace, cause)].next_retry_at,
{
}

/// Each addition that is worth a count adds one to its own counter, and to no
/// other.
pub proof fn law_addition_counts_once(counters: PassCounters, addition: Addition)
    requires
        counters.has_room(),
    ensures
        ({
            let after = addition_counted(counters, addition);
            &&& after.deferred == counters.deferred + if addition is Defer {
                1int
            } else {
                0
            }
            &&& after.stale == counters.stale + if addition is TearDownStale {
                1int
            } else {
                0
            }
            &&& after.routed == counters.routed + if addition is Route {
                1int
            } else {
                0
            }
            &&& after.backoff_skipped == counters.backoff_skipped + if addition is BackedOff {
                1int
            } else {
                0
            }
            &&& after == (PassCounters {
                deferred: after.deferred,
                stale: after.stale,
                routed: after.routed,
                backoff_skipped: after.backoff_skipped,
                ..counters
            })
        }),
{
}

/// The sum of a pass counts everything that it did: it is zero where nothing
/// was, and every counter raises it.
pub proof fn law_every_counter_counts(counters: PassCounters)
    requires
        counters.has_room(),
    ensures
        no_work().sum() == 0,
        (PassCounters { materialised: (counters.materialised + 1) as usize, ..counters }).sum()
            == counters.sum() + 1,
        (PassCounters { routed: (counters.routed + 1) as usize, ..counters }).sum()
            == counters.sum() + 1,
        (PassCounters { removed_local: (counters.removed_local + 1) as usize, ..counters }).sum()
            == counters.sum() + 1,
        (PassCounters {
            removed_routed: (counters.removed_routed + 1) as usize,
            ..counters
        }).sum() == counters.sum() + 1,
        (PassCounters {
            backoff_skipped: (counters.backoff_skipped + 1) as usize,
            ..counters
        }).sum() == counters.sum() + 1,
        (PassCounters { stale: (counters.stale + 1) as usize, ..counters }).sum()
            == counters.sum() + 1,
        (PassCounters {
            cg_offsets_purged: (counters.cg_offsets_purged + 1) as usize,
            ..counters
        }).sum() == counters.sum() + 1,
        (PassCounters { trims_pending: (counters.trims_pending + 1) as usize, ..counters }).sum()
            == counters.sum() + 1,
        (PassCounters {
            parked_reclaimed: (counters.parked_reclaimed + 1) as usize,
            ..counters
        }).sum() == counters.sum() + 1,
        (PassCounters { deferred: (counters.deferred + 1) as usize, ..counters }).sum()
            == counters.sum() + 1,
{
}

/// The wait is a second after the first failure and doubles with every further
/// one, up to a minute.
pub proof fn law_backoff_doubles_up_to_a_minute(attempts: u32)
    ensures
        backoff_after(0) == 1_000_000_000,
        backoff_after(1) == 1_000_000_000,
        1 <= attempts < u32::MAX ==> backoff_after((attempts + 1) as u32) == (if 2
            * backoff_after(attempts) > 60_000_000_000 {
            60_000_000_000
        } else {
            2 * backoff_after(attempts)
        }),
{
    reveal_with_fuel(doubled, 8);
    law_backoff_grows_within_bounds(attempts, attempts);
}

/// A failure adds one attempt to its own record and sets the time of the next
/// by their number; every other record stays. A success takes its own record
/// away and no other.
pub proof fn law_failure_is_recorded_once(
    failures: Failures,
    namespace: IggyNamespace,
    cause: FailureCause,
    now: u64,
    other: (IggyNamespace, FailureCause),
)
    requires
        now + 60_000_000_000 <= u64::MAX,
        other != (namespace, cause),
    ensures
        ({
            let key = (namespace, cause);
            let failed = after_failure(failures, namespace, cause, now);
            let cleared = after_success(failures, namespace, cause);
            &&& failed.contains_key(key)
            &&& !failures.contains_key(key) ==> failed[key].attempts == 1
            &&& failures.contains_key(key) && failures[key].attempts < u32::MAX
                ==> failed[key].attempts == failures[key].attempts + 1
            &&& failures.contains_key(key) && failures[key].attempts == u32::MAX
                ==> failed[key].attempts == u32::MAX
            &&& failed[key].next_retry_at == now + backoff_after(failed[key].attempts)
            &&& failed.contains_key(other) == failures.contains_key(other)
            &&& failures.contains_key(other) ==> failed[other] == failures[other]
            &&& !cleared.contains_key(key)
            &&& cleared.contains_key(other) == failures.contains_key(other)
            &&& failures.contains_key(other) ==> cleared[other] == failures[other]
        }),
{
    let attempts = after_failure(failures, namespace, cause, now)[(namespace, cause)].attempts;
    law_backoff_grows_within_bounds(attempts, attempts);
}

/// Pruning keeps a record, as it is, exactly where its namespace is committed or
/// held.
pub proof fn law_pruning_keeps_known_records_as_they_are(
    failures: Failures,
    target: Set<IggyNamespace>,
    local: Set<IggyNamespace>,
    key: (IggyNamespace, FailureCause),
)
    ensures
        still_known(failures, target, local).contains_key(key) <==> failures.contains_key(key) && (
        target.contains(key.0) || local.contains(key.0)),
        still_known(failures, target, local).contains_key(key) ==> still_known(
            failures,
            target,
            local,
        )[key] == failures[key],
{
}

/// Where only the failures differ, everything else is the same.
pub proof fn law_only_failures_differ(ctx: ReconcilerCtx, other: ReconcilerCtx)
    ensures
        ctx.differs_in_failures_only(other) <==> {
            &&& ctx.shard_id == other.shard_id
            &&& ctx.total_shards == other.total_shards
            &&& ctx.cluster_id == other.cluster_id
            &&& ctx.self_replica_id == other.self_replica_id
            &&& ctx.replica_count == other.replica_count
            &&& ctx.last_revision == other.last_revision
            &&& ctx.last_pass_noop == other.last_pass_noop
        },
{
}

/// A pass is skipped exactly where the last one saw the same revision and found
/// nothing to do, no failure is on record and no frame is parked.
pub proof fn law_pass_is_skipped_on_four_conditions(
    ctx: ReconcilerCtx,
    revision: u64,
    has_parked_frames: bool,
)
    ensures
        ctx.skips(revision, has_parked_frames) <==> {
            &&& ctx.last_revision == Some(revision)
            &&& ctx.last_pass_noop
            &&& forall|key: (IggyNamespace, FailureCause)|
                !#[trigger] ctx.failure_state@.contains_key(key)
            &&& !has_parked_frames
        },
{
    if forall|key: (IggyNamespace, FailureCause)|
        !#[trigger] ctx.failure_state@.contains_key(key) {
        assert(ctx.failure_state@ =~= Map::<
            (IggyNamespace, FailureCause),
            FailureRecord,
        >::empty());
    }
}

/// A finished pass remembers the revision that it saw and whether it did
/// nothing, keeps the known failures, and changes nothing else.
pub proof fn law_finished_pass_remembers_what_it_saw(
    before: ReconcilerCtx,
    after: ReconcilerCtx,
    revision: u64,
    target: Set<IggyNamespace>,
    local: Set<IggyNamespace>,
    counters: PassCounters,
    key: (IggyNamespace, FailureCause),
)
    requires
        before.finishes_as(after, revision, target, local, counters),
    ensures
        after.last_revision == Some(revision),
        after.last_pass_noop <==> counters.sum() == 0,
        after.failure_state@.contains_key(key) <==> before.failure_state@.contains_key(key) && (
        target.contains(key.0) || local.contains(key.0)),
        after.shard_id == before.shard_id,
        after.total_shards == before.total_shards,
        after.cluster_id == before.cluster_id,
        after.self_replica_id == before.self_replica_id,
        after.replica_count == before.replica_count,
{
}

/// Frames that wait are left where the partition is held, answered at once
/// where it is another shard's or its build waits for a retry, and aged
/// otherwise.
pub proof fn law_parked_frames_wait_for_what_may_come(
    shard_id: u16,
    failures: Failures,
    namespace: IggyNamespace,
    materialised: bool,
    owner: u16,
    now: u64,
)
    ensures
        ({
            let plan = parked_plan_for(shard_id, failures, namespace, materialised, owner, now);
            let waits = failures.contains_key((namespace, FailureCause::Add)) && now
                < failures[(namespace, FailureCause::Add)].next_retry_at;
            &&& plan is Leave <==> materialised
            &&& plan is Reclaim <==> !materialised && (owner != shard_id || waits)
            &&& plan is Age <==> !materialised && owner == shard_id && !waits
        }),
{
}

/// A teardown is refused for a peer's data, waits where a delete failed not
/// long ago, and else begins with the fence.
pub proof fn law_teardown_begins_with_the_fence(
    shard_id: u16,
    failures: Failures,
    namespace: IggyNamespace,
    hash_owner: u16,
    now: u64,
)
    ensures
        ({
            let teardown = teardown_for(shard_id, failures, namespace, hash_owner, now);
            let waits = failures.contains_key((namespace, FailureCause::Delete)) && now
                < failures[(namespace, FailureCause::Delete)].next_retry_at;
            &&& teardown is RefusePeerOwned <==> hash_owner != shard_id
            &&& teardown is BackedOff <==> hash_owner == shard_id && waits
            &&& teardown is Fence <==> hash_owner == shard_id && !waits
        }),
{
}

/// A partition is dropped exactly where its data was deleted, and that one; the
/// delete's record is cleared then, and counted up where it failed. No other
/// record changes.
pub proof fn law_delete_is_followed_by_its_own_removal(
    failures: Failures,
    namespace: IggyNamespace,
    deleted: bool,
    now: u64,
    other: (IggyNamespace, FailureCause),
)
    requires
        other != (namespace, FailureCause::Delete),
    ensures
        deleted ==> removal_op(namespace, deleted) == Some(ReconcileOp::ConfirmRemove { namespace }),
        !deleted ==> removal_op(namespace, deleted) is None,
        after_delete(failures, namespace, deleted, now).contains_key(
            (namespace, FailureCause::Delete),
        ) <==> !deleted,
        !deleted ==> after_delete(failures, namespace, deleted, now) == after_failure(
            failures,
            namespace,
            FailureCause::Delete,
            now,
        ),
        after_delete(failures, namespace, deleted, now).contains_key(other)
            == failures.contains_key(other),
        failures.contains_key(other) ==> after_delete(failures, namespace, deleted, now)[other]
            == failures[other],
{
}

/// The held namespaces that are not committed are listed in their order, and
/// so are the rows of those that are neither committed nor held.
pub proof fn law_ghosts_are_listed_in_order(
    listed: Seq<IggyNamespace>,
    target: Set<IggyNamespace>,
    still_owned: Set<IggyNamespace>,
    next: IggyNamespace,
)
    ensures
        ghosts(Seq::<IggyNamespace>::empty(), target) == Seq::<IggyNamespace>::empty(),
        ghosts(listed.push(next), target) == (if target.contains(next) {
            ghosts(listed, target)
        } else {
            ghosts(listed, target).push(next)
        }),
        routed_ghosts_of(Seq::<IggyNamespace>::empty(), target, still_owned) == Seq::<
            IggyNamespace,
        >::empty(),
        routed_ghosts_of(listed.push(next), target, still_owned) == (if target.contains(next)
            || still_owned.contains(next) {
            routed_ghosts_of(listed, target, still_owned)
        } else {
            routed_ghosts_of(listed, target, still_owned).push(next)
        }),
{
    lemma_filter_push(listed, |found: IggyNamespace| !target.contains(found), next);
    lemma_filter_push(
        listed,
        |found: IggyNamespace| !target.contains(found) && !still_owned.contains(found),
        next,
    );
}

/// Every partition with a watermark is asked to trim to it, in order. A trim is
/// pending exactly where the partition's first segment starts below its
/// watermark.
pub proof fn law_trims_follow_the_watermarks(views: Seq<TrimView>, next: TrimView)
    ensures
        trims_of(Seq::<TrimView>::empty()) == Seq::<Enforcement>::empty(),
        trims_of(views.push(next)) == (if next.watermark == 0 {
            trims_of(views)
        } else {
            trims_of(views).push((next.namespace, next.watermark))
        }),
        pending_trims(Seq::<TrimView>::empty()) == 0,
        pending_trims(views.push(next)) == pending_trims(views) + match next.first_segment_start {
            Some(start) => if start < next.watermark {
                1int
            } else {
                0
            },
            None => 0,
        },
{
    lemma_filter_map_push(
        views,
        |view: TrimView| view.has_watermark(),
        |view: TrimView| (view.namespace, view.watermark),
        next,
    );
    lemma_filter_push(views, |view: TrimView| view.is_pending(), next);
}

/// Every partition whose committed purge is newer than the last that it applied
/// is asked to purge, in order; one that applied none, or is gone, counts from
/// zero.
pub proof fn law_purges_follow_the_generations(views: Seq<PurgeView>, next: PurgeView)
    ensures
        purges_of(Seq::<PurgeView>::empty()) == Seq::<Enforcement>::empty(),
        purges_of(views.push(next)) == (if next.committed > (match next.applied {
            Some(applied) => applied as int,
            None => 0,
        }) {
            purges_of(views).push((next.namespace, next.committed))
        } else {
            purges_of(views)
        }),
{
    lemma_filter_map_push(
        views,
        |view: PurgeView| view.is_due(),
        |view: PurgeView| (view.namespace, view.committed),
        next,
    );
}

/// A revocation can be completed exactly where the member was served nothing,
/// has committed all that it was served, or has had its time.
pub proof fn law_revocation_waits_for_its_member(
    revocation: PendingRevocation,
    offsets: GroupOffsets,
    now: u64,
    timeout: u64,
)
    ensures
        completable(revocation, offsets, now, timeout) <==> {
            ||| offsets.last_polled is None
            ||| (offsets.committed is Some && offsets.last_polled is Some && offsets.committed->0
                >= offsets.last_polled->0)
            ||| timeout == 0
            ||| now >= revocation.created_at + timeout
        },
{
}

/// The revocations that a shard completes are, in order, those of the
/// partitions that it holds which can be completed.
pub proof fn law_completed_revocations_are_listed_in_order(
    pending: Seq<RevocationView>,
    next: RevocationView,
    now: u64,
    timeout: u64,
)
    ensures
        completed_revocations(Seq::<RevocationView>::empty(), now, timeout) == Seq::<
            PendingRevocation,
        >::empty(),
        completed_revocations(pending.push(next), now, timeout) == (if next.1 is Some
            && completable(next.0, next.1->0, now, timeout) {
            completed_revocations(pending, now, timeout).push(next.0)
        } else {
            completed_revocations(pending, now, timeout)
        }),
{
    lemma_filter_map_push(
        pending,
        |view: RevocationView|
            view.1 matches Some(offsets) && completable(view.0, offsets, now, timeout),
        |view: RevocationView| view.0,
        next,
    );
}

/// A revocation is of the partition that it names.
pub proof fn law_revocation_names_its_partition(revocation: PendingRevocation)
    ensures
        revocation.namespace_spec().stream_id == revocation.stream_id,
        revocation.namespace_spec().topic_id == revocation.topic_id,
        revocation.namespace_spec().partition_id == revocation.partition_id,
{
}

/// A pass goes on to the look at the revision behind the revocations, is over
/// there where it is skipped, and else takes additions before removals, and
/// both before the frames, offsets, trims and purges that they bear on.
pub proof fn law_steps_follow_each_other(skip: bool)
    ensures
        step_at(1, skip) == PassStep::CheckSkip,
        step_after(PassStep::Revocations, skip) == PassStep::CheckSkip,
        step_after(PassStep::CheckSkip, skip) == (if skip {
            PassStep::Done(false)
        } else {
            PassStep::Additions
        }),
        step_after(PassStep::Additions, skip) == PassStep::Removals,
        step_after(PassStep::Removals, skip) == PassStep::ParkedFrames,
        step_after(PassStep::ParkedFrames, skip) == PassStep::GroupOffsets,
        step_after(PassStep::GroupOffsets, skip) == PassStep::Truncations,
        step_after(PassStep::Truncations, skip) == PassStep::Purges,
        step_after(PassStep::Purges, skip) == PassStep::Finish,
        step_after(PassStep::Finish, skip) == PassStep::Done(true),
{
    reveal_with_fuel(step_at, 2);
}

/// The reconciler ends where the shard stops or nothing can wake it any more,
/// takes all waiting wakes together, and runs a pass on every tick.
pub proof fn law_wakes_are_taken_together(event: WakeEvent)
    ensures
        action_on(event) is Exit <==> event is Stop || event is WakeClosed,
        action_on(event) is DrainAndReconcile <==> event is Wake,
        action_on(event) is Reconcile <==> event is Tick,
{
}

} // verus!
