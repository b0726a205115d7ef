//! Reconciler passes over a shard that lives in memory.
use iggy_core::namespace::IggyNamespace;
use iggy_core::reconciler::additions::{
    routing_op, shards_table_has_epoch, Addition, BuildOutcome, NamespaceView, ReconcileOp,
};
use iggy_core::reconciler::counters::PassCounters;
use iggy_core::reconciler::ctx::ReconcilerCtx;
use iggy_core::reconciler::enforcement::{
    partition_purges, segment_truncations, PurgeView, TrimView,
};
use iggy_core::reconciler::failures::{next_backoff, FailureCause, FailureRecord};
use iggy_core::reconciler::groups::{
    count_purged_offset, dead_group_offsets, is_completable, revocations_to_complete, GroupOffsets,
    PendingRevocation,
};
use iggy_core::reconciler::parked::{count_aged, ParkedPlan};
use iggy_core::reconciler::pass::{first_step, next_step, PassStep};
use iggy_core::reconciler::removals::{owned_ghosts, remove_routed_ghosts, Teardown};
use iggy_core::reconciler::sets::NamespaceSet;
use iggy_core::reconciler::snapshot::{
    snapshot_target_namespaces, snapshot_topic_live_groups, PartitionMeta, StreamMeta,
    StreamsSnapshot, TopicMeta,
};
use iggy_core::reconciler::wake::{on_wake, WakeAction, WakeEvent};

const SECOND: u64 = 1_000_000_000;
const PARK_MAX_PASSES: u32 = 3;
const CLUSTER_ID: u128 = 1;

struct Partition {
    namespace: IggyNamespace,
    tombstoned: bool,
    group_offsets: Vec<u64>,
}

struct Row {
    namespace: IggyNamespace,
    owner: u16,
    epoch: u64,
}

/// A shard with its disk, its routing table and its parked frames.
struct Shard {
    metadata: StreamsSnapshot,
    partitions: Vec<Partition>,
    rows: Vec<Row>,
    disk: Vec<IggyNamespace>,
    ops: Vec<ReconcileOp>,
    /// Namespace and age of each parked frame.
    parked: Vec<(IggyNamespace, u32)>,
    answered: usize,
    owner: fn(IggyNamespace) -> u16,
    deletes_fail: bool,
}

fn owned_by_shard_zero(_: IggyNamespace) -> u16 {
    0
}

fn spread_over_four(namespace: IggyNamespace) -> u16 {
    (namespace.partition_id % 4) as u16
}

fn stream_with(topics: Vec<TopicMeta>) -> StreamsSnapshot {
    StreamsSnapshot {
        revision: 2,
        streams: vec![StreamMeta { id: 0, topics }],
    }
}

fn topic(id: usize, partitions: usize, revision: u64) -> TopicMeta {
    TopicMeta {
        id,
        partitions: (0..partitions)
            .map(|partition| PartitionMeta {
                id: partition,
                created_revision: revision,
            })
            .collect(),
        group_ids: Vec::new(),
    }
}

impl Shard {
    fn new(metadata: StreamsSnapshot) -> Self {
        Shard {
            metadata,
            partitions: Vec::new(),
            rows: Vec::new(),
            disk: Vec::new(),
            ops: Vec::new(),
            parked: Vec::new(),
            answered: 0,
            owner: owned_by_shard_zero,
            deletes_fail: false,
        }
    }

    fn contains(&self, namespace: IggyNamespace) -> bool {
        self.partitions
            .iter()
            .any(|partition| partition.namespace == namespace)
    }

    fn is_tombstoned(&self, namespace: IggyNamespace) -> bool {
        self.partitions
            .iter()
            .any(|partition| partition.namespace == namespace && partition.tombstoned)
    }

    fn tombstone(&mut self, namespace: IggyNamespace) {
        for partition in &mut self.partitions {
            if partition.namespace == namespace {
                partition.tombstoned = true;
            }
        }
    }

    fn shard_for(&self, namespace: IggyNamespace) -> Option<u16> {
        self.rows
            .iter()
            .find(|row| row.namespace == namespace)
            .map(|row| row.owner)
    }

    fn epoch_for(&self, namespace: IggyNamespace) -> Option<u64> {
        self.rows
            .iter()
            .find(|row| row.namespace == namespace)
            .map(|row| row.epoch)
    }

    fn remove_row(&mut self, namespace: IggyNamespace) {
        self.rows.retain(|row| row.namespace != namespace);
    }

    fn local(&self) -> Vec<IggyNamespace> {
        self.partitions
            .iter()
            .map(|partition| partition.namespace)
            .collect()
    }

    fn view(&self, namespace: IggyNamespace) -> NamespaceView {
        NamespaceView {
            materialised: self.contains(namespace),
            tombstoned: self.is_tombstoned(namespace),
            row_epoch: self.epoch_for(namespace),
            owner: (self.owner)(namespace),
        }
    }

    fn parked_frame_count(&self, namespace: IggyNamespace) -> usize {
        self.parked
            .iter()
            .filter(|(found, _)| *found == namespace)
            .count()
    }

    fn reclaim(&mut self, namespace: IggyNamespace) {
        self.answered += self.parked_frame_count(namespace);
        self.parked.retain(|(found, _)| *found != namespace);
    }

    fn age(&mut self, namespace: IggyNamespace) -> usize {
        let mut aged_out = 0;
        for (found, passes) in &mut self.parked {
            if *found == namespace {
                *passes += 1;
                if *passes > PARK_MAX_PASSES {
                    aged_out += 1;
                }
            }
        }
        self.parked
            .retain(|(found, passes)| *found != namespace || *passes <= PARK_MAX_PASSES);
        self.answered += aged_out;
        aged_out
    }

    /// The shard's own task: applies what the reconciler asked for.
    fn apply_reconcile_ops(&mut self) {
        let ops: Vec<ReconcileOp> = self.ops.drain(..).collect();
        for op in ops {
            match op {
                ReconcileOp::InsertOwned { namespace, epoch } => {
                    if !self.contains(namespace) {
                        self.partitions.push(Partition {
                            namespace,
                            tombstoned: false,
                            group_offsets: Vec::new(),
                        });
                    }
                    self.remove_row(namespace);
                    let owner = (self.owner)(namespace);
                    self.rows.push(Row {
                        namespace,
                        owner,
                        epoch,
                    });
                }
                ReconcileOp::InsertRouted {
                    namespace,
                    owner,
                    epoch,
                } => {
                    self.remove_row(namespace);
                    self.rows.push(Row {
                        namespace,
                        owner,
                        epoch,
                    });
                }
                ReconcileOp::ConfirmRemove { namespace } => {
                    self.partitions
                        .retain(|partition| partition.namespace != namespace);
                }
                ReconcileOp::RemoveRouted { namespace } => self.remove_row(namespace),
            }
        }
    }

    fn tear_down(
        &mut self,
        ctx: &mut ReconcilerCtx,
        namespace: IggyNamespace,
        now: u64,
        counters: &mut PassCounters,
    ) {
        let owner = (self.owner)(namespace);
        if ctx.begin_teardown(namespace, owner, now, counters) != Teardown::Fence {
            return;
        }
        self.tombstone(namespace);
        self.remove_row(namespace);
        let deleted = !self.deletes_fail;
        if deleted {
            self.disk.retain(|found| *found != namespace);
        }
        if let Some(op) = ctx.finish_teardown(namespace, deleted, now, counters) {
            self.ops.push(op);
        }
    }

    fn reconcile_once(&mut self, ctx: &mut ReconcilerCtx, now: u64) -> bool {
        let revision = self.metadata.revision;
        if ctx.should_skip(revision, !self.parked.is_empty()) {
            return false;
        }
        let target = snapshot_target_namespaces(&self.metadata);
        let names: Vec<IggyNamespace> = target.iter().map(|(namespace, _)| *namespace).collect();
        let target_set = NamespaceSet::from_slice(&names);
        let mut counters = PassCounters::default();
        for (namespace, epoch) in target {
            let view = self.view(namespace);
            match ctx.plan_addition(namespace, epoch, view, now, &mut counters) {
                Addition::RetryTeardown | Addition::TearDownStale => {
                    self.tear_down(ctx, namespace, now, &mut counters);
                }
                Addition::Route => self.ops.push(routing_op(namespace, epoch, &view)),
                Addition::Build => {
                    if !self.disk.contains(&namespace) {
                        self.disk.push(namespace);
                    }
                    let built = BuildOutcome::Built;
                    if let Some(op) =
                        ctx.finish_build(namespace, epoch, built, now, &mut counters)
                    {
                        self.ops.push(op);
                    }
                }
                _ => {}
            }
        }
        for namespace in owned_ghosts(&self.local(), &target_set) {
            self.tear_down(ctx, namespace, now, &mut counters);
        }
        let still_owned = NamespaceSet::from_slice(&self.local());
        let rows: Vec<IggyNamespace> = self.rows.iter().map(|row| row.namespace).collect();
        let removed = remove_routed_ghosts(&rows, &target_set, &still_owned, &mut counters);
        self.ops.extend(removed);
        let mut waiting: Vec<IggyNamespace> = Vec::new();
        for (namespace, _) in &self.parked {
            if !waiting.contains(namespace) {
                waiting.push(*namespace);
            }
        }
        for namespace in waiting {
            let owner = (self.owner)(namespace);
            let built = self.contains(namespace);
            match ctx.plan_parked(namespace, built, owner, now, &mut counters) {
                ParkedPlan::Leave => {}
                ParkedPlan::Age => {
                    let answered = self.age(namespace);
                    count_aged(&mut counters, answered);
                }
                ParkedPlan::Reclaim => self.reclaim(namespace),
            }
        }
        let live = snapshot_topic_live_groups(&self.metadata);
        for partition in &mut self.partitions {
            for dead in dead_group_offsets(&live, partition.namespace, &partition.group_offsets) {
                partition.group_offsets.retain(|found| *found != dead);
                count_purged_offset(&mut counters, true);
            }
        }
        let local_set = NamespaceSet::from_slice(&self.local());
        ctx.finish_pass(revision, &target_set, &local_set, &counters);
        true
    }

    fn reconcile_pass(&mut self, ctx: &mut ReconcilerCtx, now: u64) {
        self.reconcile_once(ctx, now);
        self.apply_reconcile_ops();
    }

    fn delete_topic(&mut self, topic_id: usize) {
        for stream in &mut self.metadata.streams {
            stream.topics.retain(|found| found.id != topic_id);
        }
        self.metadata.revision += 1;
    }

    fn create_topic(&mut self, created: TopicMeta) {
        self.metadata.revision += 1;
        self.metadata.streams[0].topics.push(created);
    }
}

fn make_ctx(shard_id: u16, total_shards: u16) -> ReconcilerCtx {
    ReconcilerCtx::new(shard_id, total_shards, CLUSTER_ID, 0, 1)
}

fn namespace(topic_id: usize, partition_id: usize) -> IggyNamespace {
    IggyNamespace::new(0, topic_id, partition_id)
}

#[test]
fn reconcile_materialises_owned_partitions_single_shard() {
    let mut shard = Shard::new(stream_with(vec![topic(0, 3, 2)]));
    let mut ctx = make_ctx(0, 1);

    shard.reconcile_pass(&mut ctx, SECOND);

    for partition_id in 0..3 {
        let ns = namespace(0, partition_id);
        assert!(
            shard.contains(ns),
            "namespace {ns:?} must be materialised on its owning shard"
        );
        assert_eq!(
            shard.shard_for(ns),
            Some(0),
            "shards_table must point at the owning shard"
        );
    }
    assert_eq!(
        shard.partitions.len(),
        3,
        "exactly three partitions materialised"
    );

    shard.reconcile_pass(&mut ctx, SECOND);
    assert_eq!(
        shard.partitions.len(),
        3,
        "second pass over an unchanged target must be a no-op"
    );
}

#[test]
fn deferred_apply_window_does_not_duplicate_owned_partition() {
    let mut shard = Shard::new(stream_with(vec![topic(0, 2, 2)]));
    let mut ctx = make_ctx(0, 1);

    shard.reconcile_once(&mut ctx, SECOND);
    shard.reconcile_once(&mut ctx, SECOND);
    assert_eq!(shard.ops.len(), 4, "both passes stage a build for each");

    shard.apply_reconcile_ops();

    assert_eq!(shard.partitions.len(), 2);
    for partition_id in 0..2 {
        let ns = namespace(0, partition_id);
        assert!(
            shard.contains(ns),
            "namespace {ns:?} must be addressable exactly once"
        );
        assert_eq!(
            shard.shard_for(ns),
            Some(0),
            "shards_table must point at the owning shard"
        );
    }
}

#[test]
fn reconcile_only_materialises_namespaces_owned_by_self() {
    let total_shards: u16 = 4;
    let partition_count = 16;
    let shard_id: u16 = 1;
    let mut shard = Shard::new(stream_with(vec![topic(0, partition_count, 2)]));
    shard.owner = spread_over_four;
    let mut ctx = make_ctx(shard_id, total_shards);

    shard.reconcile_pass(&mut ctx, SECOND);

    let mut owned = 0usize;
    let mut routed_only = 0usize;
    for partition_id in 0..partition_count {
        let ns = namespace(0, partition_id);
        let expected_owner = spread_over_four(ns);
        if expected_owner == shard_id {
            assert!(
                shard.contains(ns),
                "namespace {ns:?} owned by self must be materialised"
            );
            owned += 1;
        } else {
            assert!(
                !shard.contains(ns),
                "namespace {ns:?} owned by shard {expected_owner} \
                 must NOT be materialised on shard {shard_id}"
            );
            routed_only += 1;
        }
        assert_eq!(
            shard.shard_for(ns),
            Some(expected_owner),
            "shards_table must always resolve the owning shard"
        );
    }
    assert_eq!(
        shard.partitions.len(),
        owned,
        "IggyPartitions size must match the count of self-owned namespaces"
    );
    assert!(
        owned > 0,
        "test must run on a shard that owns at least one partition"
    );
    assert!(
        routed_only > 0,
        "test must run with at least one partition owned by another shard"
    );
}

#[test]
fn reconcile_picks_up_create_partitions_increments() {
    let mut shard = Shard::new(stream_with(vec![topic(0, 2, 2)]));
    let mut ctx = make_ctx(0, 1);

    shard.reconcile_pass(&mut ctx, SECOND);
    assert_eq!(shard.partitions.len(), 2);

    shard.metadata.revision = 3;
    for id in 2..4 {
        shard.metadata.streams[0].topics[0]
            .partitions
            .push(PartitionMeta {
                id,
                created_revision: 3,
            });
    }

    shard.reconcile_pass(&mut ctx, SECOND);
    assert_eq!(
        shard.partitions.len(),
        4,
        "reconciler must materialise the two new partitions"
    );
    for partition_id in 0..4 {
        let ns = namespace(0, partition_id);
        assert!(
            shard.contains(ns),
            "namespace {ns:?} must be materialised after CreatePartitions"
        );
    }
}

#[test]
fn reconcile_removes_partitions_on_delete_topic() {
    let mut shard = Shard::new(stream_with(vec![topic(0, 2, 2)]));
    let mut ctx = make_ctx(0, 1);

    shard.reconcile_pass(&mut ctx, SECOND);
    assert!(
        shard.disk.contains(&namespace(0, 0)),
        "partition directory must exist post-materialisation"
    );

    shard.delete_topic(0);
    shard.reconcile_pass(&mut ctx, SECOND);

    assert_eq!(
        shard.partitions.len(),
        0,
        "DeleteTopic must drop every partition under it"
    );
    for partition_id in 0..2 {
        let ns = namespace(0, partition_id);
        assert!(
            !shard.contains(ns),
            "namespace {ns:?} must be removed from IggyPartitions"
        );
        assert_eq!(
            shard.shard_for(ns),
            None,
            "shards_table row must be pruned for {ns:?}"
        );
        assert!(
            !shard.disk.contains(&ns),
            "on-disk hierarchy for {ns:?} must be removed"
        );
    }
}

#[test]
fn reconcile_removes_partitions_on_delete_stream() {
    let mut shard = Shard::new(stream_with(vec![topic(0, 2, 2), topic(1, 1, 3)]));
    let mut ctx = make_ctx(0, 1);

    shard.reconcile_pass(&mut ctx, SECOND);
    assert_eq!(
        shard.partitions.len(),
        3,
        "two topics with 2+1 partitions must materialise before delete"
    );

    shard.metadata.streams.clear();
    shard.metadata.revision += 1;
    shard.reconcile_pass(&mut ctx, SECOND);
    assert_eq!(
        shard.partitions.len(),
        0,
        "DeleteStream must remove every partition transitively"
    );
    assert!(
        shard.rows.is_empty(),
        "shards_table must be empty after DeleteStream"
    );
}

#[test]
fn reconcile_rebuilds_stale_partition_after_slab_key_reuse() {
    let mut shard = Shard::new(stream_with(vec![topic(0, 1, 2)]));
    let mut ctx = make_ctx(0, 1);

    shard.reconcile_pass(&mut ctx, SECOND);
    let ns = namespace(0, 0);
    assert!(shard.contains(ns));
    let epoch_before = shard
        .epoch_for(ns)
        .expect("materialised row carries an epoch");

    shard.delete_topic(0);
    shard.create_topic(topic(0, 1, 4));

    shard.reconcile_pass(&mut ctx, SECOND);
    assert!(
        !shard.contains(ns),
        "stale partition must be torn down before rebuild"
    );

    shard.reconcile_pass(&mut ctx, SECOND);
    assert!(
        shard.contains(ns),
        "fresh partition must materialise after the teardown"
    );
    let epoch_after = shard.epoch_for(ns);
    assert!(epoch_after.is_some(), "rebuilt row must carry an epoch");
    assert_ne!(
        epoch_after,
        Some(epoch_before),
        "rebuilt row must carry a new epoch, proving the stale partition was replaced"
    );
}

#[test]
fn reconcile_fast_skips_when_revision_unchanged() {
    let mut shard = Shard::new(stream_with(vec![topic(0, 1, 2)]));
    let mut ctx = make_ctx(0, 1);

    assert!(
        shard.reconcile_once(&mut ctx, SECOND),
        "first pass must run"
    );
    shard.apply_reconcile_ops();
    assert!(
        shard.reconcile_once(&mut ctx, SECOND),
        "the verify pass after a working pass must still run"
    );
    shard.apply_reconcile_ops();

    assert!(
        !shard.reconcile_once(&mut ctx, SECOND),
        "unchanged revision after convergence must fast-skip the diff"
    );

    shard.create_topic(topic(1, 1, 3));
    assert!(
        shard.reconcile_once(&mut ctx, SECOND),
        "a fresh commit must defeat the fast-skip"
    );
}

#[test]
fn reconcile_recovers_permanently_wedged_tombstone() {
    let mut shard = Shard::new(stream_with(vec![topic(0, 1, 2)]));
    let mut ctx = make_ctx(0, 1);

    shard.reconcile_pass(&mut ctx, SECOND);
    let ns = namespace(0, 0);
    assert!(shard.contains(ns));
    assert!(shard.disk.contains(&ns));

    shard.tombstone(ns);
    shard.remove_row(ns);
    ctx.failure_state.insert(
        ns,
        FailureCause::Delete,
        FailureRecord {
            attempts: 1,
            next_retry_at: SECOND,
        },
    );

    shard.reconcile_pass(&mut ctx, SECOND);
    assert!(
        !shard.contains(ns),
        "re-driven teardown must drop the wedged partition"
    );
    assert!(
        !shard.is_tombstoned(ns),
        "ConfirmRemove must clear the tombstone once the delete succeeds"
    );
    assert!(
        !shard.disk.contains(&ns),
        "re-driven teardown must delete the on-disk hierarchy"
    );

    shard.reconcile_pass(&mut ctx, SECOND);
    assert!(
        shard.contains(ns),
        "partition must rebuild fresh after the wedge is cleared"
    );
    assert!(!shard.is_tombstoned(ns));
    assert_eq!(
        shard.shard_for(ns),
        Some(0),
        "rebuilt partition must be addressable through shards_table"
    );
    assert!(
        shard.disk.contains(&ns),
        "rebuilt partition must recreate its on-disk hierarchy"
    );
}

#[test]
fn reconcile_defers_rebuild_while_confirm_remove_in_flight() {
    let mut shard = Shard::new(stream_with(vec![topic(0, 1, 2)]));
    let mut ctx = make_ctx(0, 1);

    shard.reconcile_pass(&mut ctx, SECOND);
    let ns = namespace(0, 0);
    assert!(shard.contains(ns));

    shard.tombstone(ns);
    shard.remove_row(ns);

    shard.reconcile_once(&mut ctx, SECOND);
    assert!(
        shard.contains(ns),
        "defer must leave the partition in the map"
    );
    assert!(
        shard.is_tombstoned(ns),
        "defer must not clear the tombstone"
    );
    assert!(
        shard.disk.contains(&ns),
        "defer must not re-drive teardown: the directory must remain"
    );
}

#[test]
fn reconcile_rebuilds_after_deferred_confirm_remove_drains() {
    let mut shard = Shard::new(stream_with(vec![topic(0, 1, 2)]));
    let mut ctx = make_ctx(0, 1);

    shard.reconcile_pass(&mut ctx, SECOND);
    let ns = namespace(0, 0);
    assert!(shard.contains(ns));

    shard.tombstone(ns);
    shard.remove_row(ns);
    shard.disk.clear();
    shard.ops.push(ReconcileOp::ConfirmRemove { namespace: ns });

    shard.reconcile_once(&mut ctx, SECOND);
    assert!(
        shard.is_tombstoned(ns),
        "the pass under test must be the deferring one"
    );

    shard.apply_reconcile_ops();
    assert!(!shard.contains(ns));

    assert!(
        shard.reconcile_once(&mut ctx, SECOND),
        "the post-ConfirmRemove wake must run a full pass: a deferring \
         pass has not converged and must not arm the fast-skip"
    );
    shard.apply_reconcile_ops();
    assert!(
        shard.contains(ns),
        "the deferred rebuild must materialise once the drop drains"
    );
    assert_eq!(
        shard.shard_for(ns),
        Some(0),
        "rebuilt partition must be addressable again"
    );
}

#[test]
fn reconcile_reclaims_offsets_of_deleted_consumer_group() {
    let mut shard = Shard::new(stream_with(vec![topic(0, 1, 2)]));
    let mut ctx = make_ctx(0, 1);
    shard.reconcile_pass(&mut ctx, SECOND);
    assert!(shard.contains(namespace(0, 0)));

    // Groups 0 ("dead") and 1 ("live"), of which the first is deleted.
    shard.partitions[0].group_offsets = vec![0, 1];
    shard.metadata.streams[0].topics[0].group_ids = vec![1];
    shard.reconcile_pass(&mut ctx, SECOND);

    assert_eq!(
        shard.partitions[0].group_offsets,
        vec![1],
        "deleted group's offset reclaimed; live group's offset retained"
    );
}

#[test]
fn parked_frames_are_reclaimed_when_the_namespace_leaves_metadata() {
    let mut shard = Shard::new(stream_with(vec![topic(0, 1, 2)]));
    let mut ctx = make_ctx(0, 1);
    let ns = namespace(0, 0);

    shard.parked.push((ns, 0));
    shard.delete_topic(0);
    shard.reconcile_pass(&mut ctx, SECOND);
    assert_eq!(
        shard.parked_frame_count(ns),
        1,
        "the first pass must not destroy the frame: absence from the target set \
         is also what a not-yet-applied commit looks like"
    );

    for _ in 0..=PARK_MAX_PASSES {
        shard.reconcile_pass(&mut ctx, SECOND);
    }

    assert!(
        shard.parked.is_empty(),
        "frames for a namespace that left metadata must be answered and reclaimed"
    );
    assert_eq!(
        shard.answered, 1,
        "and the waiting client must get a retriable answer"
    );
}

#[test]
fn park_buffer_defeats_the_revision_fast_skip() {
    let mut shard = Shard::new(stream_with(vec![topic(0, 1, 2)]));
    let mut ctx = make_ctx(0, 1);

    assert!(
        shard.reconcile_once(&mut ctx, SECOND),
        "first pass runs the full diff"
    );
    shard.apply_reconcile_ops();
    assert!(
        shard.reconcile_once(&mut ctx, SECOND),
        "the verify pass after a working pass must still run"
    );
    shard.apply_reconcile_ops();
    assert!(
        !shard.reconcile_once(&mut ctx, SECOND),
        "a converged pass with an unchanged revision must fast-skip"
    );

    shard.parked.push((namespace(0, 7), 0));
    assert!(
        shard.reconcile_once(&mut ctx, SECOND),
        "a non-empty park buffer must defeat the fast-skip so the sweep can run"
    );
}

#[test]
fn parked_frames_are_reclaimed_while_the_build_is_backed_off() {
    let mut shard = Shard::new(stream_with(vec![topic(0, 1, 2)]));
    let mut ctx = make_ctx(0, 1);
    let ns = namespace(0, 0);
    shard.parked.push((ns, 0));

    ctx.record_failure(ns, FailureCause::Add, SECOND);
    shard.reconcile_pass(&mut ctx, SECOND);

    assert!(
        !shard.contains(ns),
        "a backed-off namespace must not have been built"
    );
    assert!(
        shard.parked.is_empty(),
        "frames waiting on a backed-off build must be answered, not held"
    );
}

#[test]
fn failed_delete_keeps_the_partition_fenced_until_it_succeeds() {
    let mut shard = Shard::new(stream_with(vec![topic(0, 1, 2)]));
    let mut ctx = make_ctx(0, 1);
    let ns = namespace(0, 0);
    shard.reconcile_pass(&mut ctx, SECOND);
    shard.delete_topic(0);
    shard.deletes_fail = true;
    shard.reconcile_pass(&mut ctx, SECOND);
    assert!(shard.contains(ns));
    assert!(shard.is_tombstoned(ns));
    assert!(ctx.has_pending_delete_failure(ns));

    // The topic is created again; the delete goes through once it is due.
    shard.create_topic(topic(0, 1, 4));
    shard.deletes_fail = false;
    shard.reconcile_pass(&mut ctx, SECOND + 1);
    assert!(shard.contains(ns), "the retry has to wait");
    shard.reconcile_pass(&mut ctx, 2 * SECOND);
    assert!(!shard.contains(ns));
    assert!(!ctx.has_pending_delete_failure(ns));
    shard.reconcile_pass(&mut ctx, 2 * SECOND);
    assert_eq!(shard.epoch_for(ns), Some(4));
}

#[test]
fn partition_that_hashes_to_a_peer_is_not_deleted() {
    let mut shard = Shard::new(stream_with(vec![topic(0, 1, 2)]));
    let mut ctx = make_ctx(0, 4);
    let ns = namespace(0, 0);
    shard.reconcile_pass(&mut ctx, SECOND);
    fn elsewhere(_: IggyNamespace) -> u16 {
        3
    }
    shard.owner = elsewhere;
    shard.delete_topic(0);
    shard.reconcile_pass(&mut ctx, SECOND);
    assert!(shard.contains(ns));
    assert!(!shard.is_tombstoned(ns));
    assert!(shard.disk.contains(&ns));
    assert!(ctx.has_pending_delete_failure(ns));
}

#[test]
fn backoff_doubles_up_to_a_minute() {
    let seconds: Vec<u64> = (0..10)
        .map(|attempts| next_backoff(attempts) / SECOND)
        .collect();
    assert_eq!(seconds, vec![1, 1, 2, 4, 8, 16, 32, 60, 60, 60]);
    assert_eq!(next_backoff(u32::MAX), 60 * SECOND);
}

#[test]
fn failures_have_a_budget_per_cause() {
    let mut ctx = make_ctx(0, 1);
    let ns = namespace(0, 0);
    ctx.record_failure(ns, FailureCause::Delete, SECOND);
    ctx.record_failure(ns, FailureCause::Delete, SECOND);
    assert!(ctx.is_backed_off(ns, FailureCause::Delete, 2 * SECOND));
    assert!(!ctx.is_backed_off(ns, FailureCause::Delete, 3 * SECOND));
    assert!(!ctx.is_backed_off(ns, FailureCause::Add, SECOND));
    assert!(!ctx.is_backed_off(namespace(0, 1), FailureCause::Delete, SECOND));
    ctx.record_success(ns, FailureCause::Delete);
    assert!(!ctx.is_backed_off(ns, FailureCause::Delete, SECOND));
    assert!(!ctx.has_pending_delete_failure(ns));
}

#[test]
fn backoff_follows_the_failures_in_a_row() {
    let mut ctx = make_ctx(0, 1);
    let ns = namespace(0, 0);
    for (failed, wait) in [1, 2, 4, 8, 16, 32, 60, 60].into_iter().enumerate() {
        let at = failed as u64 * 100 * SECOND;
        ctx.record_failure(ns, FailureCause::Add, at);
        assert!(ctx.is_backed_off(ns, FailureCause::Add, at + wait * SECOND - 1));
        assert!(!ctx.is_backed_off(ns, FailureCause::Add, at + wait * SECOND));
        assert!(!ctx.is_backed_off(ns, FailureCause::Delete, at));
        assert!(!ctx.is_backed_off(namespace(0, 1), FailureCause::Add, at));
    }
    ctx.record_success(ns, FailureCause::Add);
    assert!(!ctx.is_backed_off(ns, FailureCause::Add, 0));
    ctx.record_failure(ns, FailureCause::Add, SECOND);
    assert!(ctx.is_backed_off(ns, FailureCause::Add, 2 * SECOND - 1));
    assert!(!ctx.is_backed_off(ns, FailureCause::Add, 2 * SECOND));
}

#[test]
fn route_writes_the_owner_and_the_committed_epoch() {
    let view = NamespaceView {
        materialised: false,
        tombstoned: false,
        row_epoch: Some(3),
        owner: 7,
    };
    assert_eq!(
        routing_op(namespace(0, 1), 4, &view),
        ReconcileOp::InsertRouted {
            namespace: namespace(0, 1),
            owner: 7,
            epoch: 4
        }
    );
}

#[test]
fn stale_failures_are_forgotten() {
    let mut ctx = make_ctx(0, 1);
    for partition in 0..3 {
        ctx.record_failure(namespace(0, partition), FailureCause::Add, 0);
    }
    let target = NamespaceSet::from_slice(&[namespace(0, 0)]);
    let local = NamespaceSet::from_slice(&[namespace(0, 1)]);
    ctx.prune_failure_state_stale(&target, &local);
    assert!(ctx.is_backed_off(namespace(0, 0), FailureCause::Add, 0));
    assert!(ctx.is_backed_off(namespace(0, 1), FailureCause::Add, 0));
    assert!(!ctx.is_backed_off(namespace(0, 2), FailureCause::Add, 0));
}

#[test]
fn failed_build_is_retried_later() {
    let mut ctx = make_ctx(0, 1);
    let ns = namespace(0, 0);
    let mut counters = PassCounters::default();
    let op = ctx.finish_build(ns, 2, BuildOutcome::Failed, SECOND, &mut counters);
    assert_eq!(op, None);
    let view = NamespaceView {
        materialised: false,
        tombstoned: false,
        row_epoch: None,
        owner: 0,
    };
    assert_eq!(
        ctx.plan_addition(ns, 2, view, SECOND, &mut counters),
        Addition::BackedOff
    );
    assert_eq!(
        ctx.plan_addition(ns, 2, view, 2 * SECOND, &mut counters),
        Addition::Build
    );
    let op = ctx.finish_build(ns, 2, BuildOutcome::TopicGone, SECOND, &mut counters);
    assert_eq!(op, None);
    assert_eq!(counters.backoff_skipped, 1);
    assert_eq!(counters.total(), 1);
}

#[test]
fn routing_row_of_an_earlier_incarnation_is_rewritten() {
    assert!(shards_table_has_epoch(Some(4), 4));
    assert!(!shards_table_has_epoch(Some(3), 4));
    assert!(!shards_table_has_epoch(None, 4));
    let ctx = make_ctx(0, 4);
    let mut counters = PassCounters::default();
    let view = NamespaceView {
        materialised: false,
        tombstoned: false,
        row_epoch: Some(3),
        owner: 2,
    };
    assert_eq!(
        ctx.plan_addition(namespace(0, 0), 4, view, 0, &mut counters),
        Addition::Route
    );
    assert_eq!(
        ctx.plan_addition(namespace(0, 0), 3, view, 0, &mut counters),
        Addition::AlreadyRouted
    );
    assert_eq!(counters.routed, 1);
}

#[test]
fn frames_for_a_namespace_of_another_shard_are_answered() {
    let ctx = make_ctx(0, 4);
    let mut counters = PassCounters::default();
    assert_eq!(
        ctx.plan_parked(namespace(0, 0), false, 1, 0, &mut counters),
        ParkedPlan::Reclaim
    );
    assert_eq!(
        ctx.plan_parked(namespace(0, 0), true, 1, 0, &mut counters),
        ParkedPlan::Leave
    );
    assert_eq!(
        ctx.plan_parked(namespace(0, 0), false, 0, 0, &mut counters),
        ParkedPlan::Age
    );
    assert_eq!(counters.parked_reclaimed, 1);
    count_aged(&mut counters, 0);
    count_aged(&mut counters, 2);
    assert_eq!(counters.parked_reclaimed, 2);
}

#[test]
fn namespace_set_holds_what_is_inserted() {
    let mut set = NamespaceSet::new();
    assert!(!set.contains(namespace(1, 2)));
    set.insert(namespace(1, 2));
    assert!(set.contains(namespace(1, 2)));
    assert!(!set.contains(namespace(2, 1)));
}

#[test]
fn live_groups_are_kept_by_topic() {
    let mut with_groups = topic(3, 1, 2);
    with_groups.group_ids = vec![5, 6];
    let live = snapshot_topic_live_groups(&stream_with(vec![with_groups, topic(4, 1, 2)]));
    assert!(live.is_live(0, 3, 5));
    assert!(!live.is_live(0, 3, 7));
    assert!(!live.is_live(0, 4, 5));
    assert_eq!(
        dead_group_offsets(&live, namespace(3, 0), &[7, 5, 8]),
        vec![7, 8]
    );
}

fn revocation(created_at: u64) -> PendingRevocation {
    PendingRevocation {
        stream_id: 0,
        topic_id: 0,
        group_id: 1,
        source_client_id: 9,
        partition_id: 4,
        created_at,
    }
}

#[test]
fn revocations_wait_for_the_drain_or_the_timeout() {
    let pending = revocation(100);
    assert_eq!(pending.namespace(), namespace(0, 4));
    let offsets = |last_polled, committed| GroupOffsets {
        last_polled,
        committed,
    };
    assert!(is_completable(&pending, &offsets(None, None), 100, 50));
    assert!(is_completable(&pending, &offsets(Some(7), Some(7)), 100, 50));
    assert!(!is_completable(&pending, &offsets(Some(7), Some(6)), 149, 50));
    assert!(is_completable(&pending, &offsets(Some(7), None), 150, 50));
    assert!(!is_completable(&pending, &offsets(Some(7), None), 99, 50));
    let views = vec![
        (revocation(1), None),
        (revocation(2), Some(offsets(None, None))),
        (revocation(3), Some(offsets(Some(7), None))),
    ];
    assert_eq!(
        revocations_to_complete(&views, 10, 50),
        vec![revocation(2)]
    );
}

#[test]
fn trims_stay_pending_until_the_segments_follow() {
    let view = |partition, watermark, first_segment_start| TrimView {
        namespace: namespace(0, partition),
        watermark,
        first_segment_start,
    };
    let mut counters = PassCounters::default();
    let trims = segment_truncations(
        &[
            view(0, 0, Some(0)),
            view(1, 10, Some(5)),
            view(2, 10, Some(10)),
            view(3, 10, None),
        ],
        &mut counters,
    );
    assert_eq!(
        trims,
        vec![
            (namespace(0, 1), 10),
            (namespace(0, 2), 10),
            (namespace(0, 3), 10)
        ]
    );
    assert_eq!(counters.trims_pending, 1);
}

#[test]
fn purges_are_asked_for_once_per_generation() {
    let view = |partition, committed, applied| PurgeView {
        namespace: namespace(0, partition),
        committed,
        applied,
    };
    assert_eq!(
        partition_purges(&[
            view(0, 2, Some(2)),
            view(1, 3, Some(2)),
            view(2, 0, None),
            view(3, 1, None)
        ]),
        vec![(namespace(0, 1), 3), (namespace(0, 3), 1)]
    );
}

#[test]
fn reconciler_stops_when_told_or_when_nothing_can_wake_it() {
    assert_eq!(on_wake(WakeEvent::Stop), WakeAction::Exit);
    assert_eq!(on_wake(WakeEvent::WakeClosed), WakeAction::Exit);
    assert_eq!(on_wake(WakeEvent::Wake), WakeAction::DrainAndReconcile);
    assert_eq!(on_wake(WakeEvent::Tick), WakeAction::Reconcile);
}

#[test]
fn skipped_pass_still_completes_revocations() {
    let walk = |skip: bool| {
        let mut step = first_step();
        let mut steps = Vec::new();
        while !matches!(step, PassStep::Done(_)) {
            steps.push(step);
            step = next_step(step, skip);
        }
        (steps, step)
    };
    assert_eq!(
        walk(true),
        (
            vec![PassStep::Revocations, PassStep::CheckSkip],
            PassStep::Done(false)
        )
    );
    let (steps, end) = walk(false);
    assert_eq!(end, PassStep::Done(true));
    assert_eq!(
        steps,
        vec![
            PassStep::Revocations,
            PassStep::CheckSkip,
            PassStep::Additions,
            PassStep::Removals,
            PassStep::ParkedFrames,
            PassStep::GroupOffsets,
            PassStep::Truncations,
            PassStep::Purges,
            PassStep::Finish,
        ]
    );
}
