//! What committed metadata says of streams, topics and partitions.
use crate::namespace::IggyNamespace;
use crate::reconciler::sets::LiveGroups;
use vstd::prelude::*;

verus! {

/// A committed partition.
#[derive(Debug, Clone, Copy, PartialEq, Eq, Structural)]
pub struct PartitionMeta {
    pub id: usize,
    /// The metadata revision that created this incarnation.
    pub created_revision: u64,
}

/// A committed topic.
#[derive(Debug)]
pub struct TopicMeta {
    pub id: usize,
    pub partitions: Vec<PartitionMeta>,
    /// The ids of the topic's consumer groups.
    pub group_ids: Vec<u64>,
}

/// A committed stream.
#[derive(Debug)]
pub struct StreamMeta {
    pub id: usize,
    pub topics: Vec<TopicMeta>,
}

/// Committed metadata as one shard sees it.
#[derive(Debug)]
pub struct StreamsSnapshot {
    /// Grows with every commit that changes the set of partitions.
    pub revision: u64,
    pub streams: Vec<StreamMeta>,
}

/// A namespace and the epoch of its committed incarnation.
pub type TargetEntry = (IggyNamespace, u64);

/// The targets of a topic's partitions.
pub open spec fn partition_targets(
    stream_id: usize,
    topic_id: usize,
    partitions: Seq<PartitionMeta>,
) -> Seq<TargetEntry> {
    Seq::new(
        partitions.len(),
        |i: int|
            (
                IggyNamespace { stream_id, topic_id, partition_id: partitions[i].id },
                partitions[i].created_revision,
            ),
    )
}

/// The targets of a stream's topics, in order.
pub open spec fn topic_targets(stream_id: usize, topics: Seq<TopicMeta>) -> Seq<TargetEntry>
    decreases topics.len(),
{
    if topics.len() == 0 {
        Seq::empty()
    } else {
        topic_targets(stream_id, topics.drop_last()) + partition_targets(
            stream_id,
            topics.last().id,
            topics.last().partitions@,
        )
    }
}

/// The targets of all streams, in order.
pub open spec fn stream_targets(streams: Seq<StreamMeta>) -> Seq<TargetEntry>
    decreases streams.len(),
{
    if streams.len() == 0 {
        Seq::empty()
    } else {
        stream_targets(streams.drop_last()) + topic_targets(
            streams.last().id,
            streams.last().topics@,
        )
    }
}

/// The groups of a stream's topics on top of `before`: a topic without groups
/// adds nothing.
pub open spec fn topic_live_groups(
    before: Map<(usize, usize), Set<u64>>,
    stream_id: usize,
    topics: Seq<TopicMeta>,
) -> Map<(usize, usize), Set<u64>>
    decreases topics.len(),
{
    if topics.len() == 0 {
        before
    } else {
        let earlier = topic_live_groups(before, stream_id, topics.drop_last());
        if topics.last().group_ids@.len() == 0 {
            earlier
        } else {
            earlier.insert((stream_id, topics.last().id), topics.last().group_ids@.to_set())
        }
    }
}

/// The groups of all topics that have any.
pub open spec fn stream_live_groups(streams: Seq<StreamMeta>) -> Map<(usize, usize), Set<u64>>
    decreases streams.len(),
{
    if streams.len() == 0 {
        Map::empty()
    } else {
        topic_live_groups(
            stream_live_groups(streams.drop_last()),
            streams.last().id,
            streams.last().topics@,
        )
    }
}

/// Every committed namespace with the epoch of its incarnation.
pub fn snapshot_target_namespaces(snapshot: &StreamsSnapshot) -> (target: Vec<TargetEntry>)
    ensures
        target@ == stream_targets(snapshot.streams@),
{
    let mut entries: Vec<TargetEntry> = Vec::new();
    let mut index: usize = 0;
    assert(snapshot.streams@.take(0) =~= Seq::empty());
    while index < snapshot.streams.len()
        invariant
            index <= snapshot.streams@.len(),
            entries@ == stream_targets(snapshot.streams@.take(index as int)),
        decreases snapshot.streams@.len() - index,
    {
        push_topic_targets(&mut entries, &snapshot.streams[index]);
        assert(snapshot.streams@.take(index + 1).drop_last() =~= snapshot.streams@.take(
            index as int,
        ));
        index = index + 1;
    }
    assert(snapshot.streams@.take(index as int) =~= snapshot.streams@);
    entries
}

fn push_topic_targets(entries: &mut Vec<TargetEntry>, stream: &StreamMeta)
    ensures
        final(entries)@ == old(entries)@ + topic_targets(stream.id, stream.topics@),
{
    let ghost before = entries@;
    let mut index: usize = 0;
    assert(stream.topics@.take(0) =~= Seq::empty());
    assert(entries@ =~= before + topic_targets(stream.id, stream.topics@.take(0)));
    while index < stream.topics.len()
        invariant
            index <= stream.topics@.len(),
            entries@ == before + topic_targets(stream.id, stream.topics@.take(index as int)),
        decreases stream.topics@.len() - index,
    {
        push_partition_targets(entries, stream.id, &stream.topics[index]);
        assert(stream.topics@.take(index + 1).drop_last() =~= stream.topics@.take(index as int));
        assert(entries@ =~= before + topic_targets(stream.id, stream.topics@.take(index + 1)));
        index = index + 1;
    }
    assert(stream.topics@.take(index as int) =~= stream.topics@);
}

fn push_partition_targets(entries: &mut Vec<TargetEntry>, stream_id: usize, topic: &TopicMeta)
    ensures
        final(entries)@ == old(entries)@ + partition_targets(
            stream_id,
            topic.id,
            topic.partitions@,
        ),
{
    let ghost before = entries@;
    let ghost all = partition_targets(stream_id, topic.id, topic.partitions@);
    let mut index: usize = 0;
    assert(entries@ =~= before + all.take(0));
    while index < topic.partitions.len()
        invariant
            index <= topic.partitions@.len(),
            all == partition_targets(stream_id, topic.id, topic.partitions@),
            entries@ == before + all.take(index as int),
        decreases topic.partitions@.len() - index,
    {
        let partition: PartitionMeta = topic.partitions[index];
        let namespace = IggyNamespace::new(stream_id, topic.id, partition.id);
        entries.push((namespace, partition.created_revision));
        assert(entries@ =~= before + all.take(index + 1));
        index = index + 1;
    }
    assert(all.take(index as int) =~= all);
}

/// The consumer groups of every topic that has any.
pub fn snapshot_topic_live_groups(snapshot: &StreamsSnapshot) -> (live: LiveGroups)
    ensures
        live@ == stream_live_groups(snapshot.streams@),
{
    let mut live = LiveGroups::new();
    let mut index: usize = 0;
    assert(snapshot.streams@.take(0) =~= Seq::empty());
    while index < snapshot.streams.len()
        invariant
            index <= snapshot.streams@.len(),
            live@ == stream_live_groups(snapshot.streams@.take(index as int)),
        decreases snapshot.streams@.len() - index,
    {
        insert_topic_groups(&mut live, &snapshot.streams[index]);
        assert(snapshot.streams@.take(index + 1).drop_last() =~= snapshot.streams@.take(
            index as int,
        ));
        index = index + 1;
    }
    assert(snapshot.streams@.take(index as int) =~= snapshot.streams@);
    live
}

fn insert_topic_groups(live: &mut LiveGroups, stream: &StreamMeta)
    ensures
        final(live)@ == topic_live_groups(old(live)@, stream.id, stream.topics@),
{
    let ghost before = live@;
    let mut index: usize = 0;
    assert(stream.topics@.take(0) =~= Seq::empty());
    while index < stream.topics.len()
        invariant
            index <= stream.topics@.len(),
            live@ == topic_live_groups(before, stream.id, stream.topics@.take(index as int)),
        decreases stream.topics@.len() - index,
    {
        let topic: &TopicMeta = &stream.topics[index];
        assert(stream.topics@.take(index + 1).drop_last() =~= stream.topics@.take(index as int));
        if topic.group_ids.len() != 0 {
            live.insert(stream.id, topic.id, topic.group_ids.as_slice());
        }
        index = index + 1;
    }
    assert(stream.topics@.take(index as int) =~= stream.topics@);
}

} // verus!
