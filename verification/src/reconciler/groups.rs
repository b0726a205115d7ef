//! Consumer groups: offsets of deleted groups, and partitions that change
//! hands.
use crate::namespace::IggyNamespace;
use crate::reconciler::counters::PassCounters;
use crate::reconciler::sets::{group_is_live, LiveGroups};
use crate::sequences::{lemma_filter_map_step, lemma_filter_step};
use vstd::prelude::*;

verus! {

/// The stored offsets of groups that the topic no longer has.
pub open spec fn dead_groups(
    live: Map<(usize, usize), Set<u64>>,
    namespace: IggyNamespace,
    stored: Seq<u64>,
) -> Seq<u64> {
    stored.filter(
        |group_id: u64|
            !group_is_live(live, namespace.stream_id, namespace.topic_id, group_id),
    )
}

/// Which of the groups with a stored offset the topic no longer has.
pub fn dead_group_offsets(live: &LiveGroups, namespace: IggyNamespace, stored: &[u64]) -> (dead:
    Vec<u64>)
    ensures
        dead@ == dead_groups(live@, namespace, stored@),
{
    let ghost keep = |group_id: u64|
        !group_is_live(live@, namespace.stream_id, namespace.topic_id, group_id);
    let mut dead: Vec<u64> = Vec::new();
    let mut index: usize = 0;
    proof {
        lemma_filter_step(stored@, keep, 0);
    }
    while index < stored.len()
        invariant
            index <= stored@.len(),
            keep == (|group_id: u64|
                !group_is_live(live@, namespace.stream_id, namespace.topic_id, group_id)),
            stored@.take(stored@.len() as int) == stored@,
            dead@ == stored@.take(index as int).filter(keep),
        decreases stored@.len() - index,
    {
        proof {
            lemma_filter_step(stored@, keep, index as int);
        }
        if !live.is_live(namespace.stream_id, namespace.topic_id, stored[index]) {
            dead.push(stored[index]);
        }
        index = index + 1;
    }
    dead
}

/// Counts an offset whose stored file was deleted; a failed delete counts
/// nothing.
pub fn count_purged_offset(counters: &mut PassCounters, deleted: bool)
    requires
        old(counters).has_room(),
    ensures
        *final(counters) == (if deleted {
            PassCounters {
                cg_offsets_purged: (old(counters).cg_offsets_purged + 1) as usize,
                ..*old(counters)
            }
        } else {
            *old(counters)
        }),
{
    if deleted {
        counters.cg_offsets_purged = counters.cg_offsets_purged + 1;
    }
}

/// A partition that one group member is to hand over to another.
#[derive(Debug, Clone, Copy, PartialEq, Eq, Structural)]
pub struct PendingRevocation {
    pub stream_id: u32,
    pub topic_id: u32,
    pub group_id: u64,
    /// The member that hands the partition over.
    pub source_client_id: u128,
    pub partition_id: u32,
    /// Microseconds.
    pub created_at: u64,
}

impl PendingRevocation {
    /// The partition that changes hands.
    pub open spec fn namespace_spec(self) -> IggyNamespace {
        IggyNamespace {
            stream_id: self.stream_id as usize,
            topic_id: self.topic_id as usize,
            partition_id: self.partition_id as usize,
        }
    }

    /// The partition that changes hands.
    pub fn namespace(&self) -> (namespace: IggyNamespace)
        ensures
            namespace == self.namespace_spec(),
    {
        IggyNamespace::new(
            self.stream_id as usize,
            self.topic_id as usize,
            self.partition_id as usize,
        )
    }
}

/// What a partition knows of a group: the last offset that it was served, and
/// the last that it committed.
#[derive(Debug, Clone, Copy, PartialEq, Eq, Structural)]
pub struct GroupOffsets {
    pub last_polled: Option<u64>,
    pub committed: Option<u64>,
}

/// Whether a revocation can be completed: the member was served nothing, has
/// committed all that it was served, or took too long.
pub open spec fn completable(
    revocation: PendingRevocation,
    offsets: GroupOffsets,
    now: u64,
    timeout: u64,
) -> bool {
    match offsets.last_polled {
        None => true,
        Some(polled) => {
            ||| (offsets.committed matches Some(committed) && committed >= polled)
            ||| waited(revocation, now) >= timeout
        },
    }
}

/// How long a revocation has been pending; nothing where its time of creation
/// lies ahead.
pub open spec fn waited(revocation: PendingRevocation, now: u64) -> int {
    if now >= revocation.created_at {
        now - revocation.created_at
    } else {
        0
    }
}

/// Whether a revocation can be completed.
pub fn is_completable(
    revocation: &PendingRevocation,
    offsets: &GroupOffsets,
    now: u64,
    timeout: u64,
) -> (complete: bool)
    ensures
        complete == completable(*revocation, *offsets, now, timeout),
{
    match offsets.last_polled {
        None => true,
        Some(polled) => {
            let drained: bool = match offsets.committed {
                Some(committed) => committed >= polled,
                None => false,
            };
            let age: u64 = if now >= revocation.created_at {
                now - revocation.created_at
            } else {
                0
            };
            drained || age >= timeout
        },
    }
}

/// A pending revocation, and the group's offsets where this shard holds the
/// partition.
pub type RevocationView = (PendingRevocation, Option<GroupOffsets>);

/// The revocations that this shard completes: those that can be completed, of
/// the partitions that it holds.
pub open spec fn completed_revocations(
    pending: Seq<RevocationView>,
    now: u64,
    timeout: u64,
) -> Seq<PendingRevocation> {
    pending.filter(
        |view: RevocationView|
            view.1 matches Some(offsets) && completable(view.0, offsets, now, timeout),
    ).map_values(|view: RevocationView| view.0)
}

/// The revocations to complete. `now` and `timeout` are microseconds.
pub fn revocations_to_complete(pending: &[RevocationView], now: u64, timeout: u64) -> (complete:
    Vec<PendingRevocation>)
    ensures
        complete@ == completed_revocations(pending@, now, timeout),
{
    let ghost keep = |view: RevocationView|
        view.1 matches Some(offsets) && completable(view.0, offsets, now, timeout);
    let ghost first = |view: RevocationView| view.0;
    let mut complete: Vec<PendingRevocation> = Vec::new();
    let mut index: usize = 0;
    proof {
        lemma_filter_map_step(pending@, keep, first, 0);
    }
    while index < pending.len()
        invariant
            index <= pending@.len(),
            keep == (|view: RevocationView|
                view.1 matches Some(offsets) && completable(view.0, offsets, now, timeout)),
            first == (|view: RevocationView| view.0),
            pending@.take(pending@.len() as int) == pending@,
            complete@ == pending@.take(index as int).filter(keep).map_values(first),
        decreases pending@.len() - index,
    {
        proof {
            lemma_filter_map_step(pending@, keep, first, index as int);
        }
        let revocation: PendingRevocation = pending[index].0;
        match pending[index].1 {
            Some(offsets) => {
                if is_completable(&revocation, &offsets, now, timeout) {
                    complete.push(revocation);
                }
            },
            None => {},
        }
        index = index + 1;
    }
    complete
}

} // verus!
