//! Committed trims and purges that the local partitions have to follow.
use crate::namespace::IggyNamespace;
use crate::reconciler::counters::PassCounters;
use crate::sequences::{lemma_filter_map_step, lemma_filter_step};
use vstd::prelude::*;

verus! {

/// A held partition, the offset below which everything is deleted, and where
/// its first segment starts.
#[derive(Debug, Clone, Copy, PartialEq, Eq, Structural)]
pub struct TrimView {
    pub namespace: IggyNamespace,
    /// Zero where nothing was deleted.
    pub watermark: u64,
    pub first_segment_start: Option<u64>,
}

impl TrimView {
    /// Whether a trim is committed for the partition.
    pub open spec fn has_watermark(self) -> bool {
        self.watermark != 0
    }

    /// Whether the partition holds a segment from below the watermark.
    pub open spec fn is_pending(self) -> bool {
        self.has_watermark() && (self.first_segment_start matches Some(start) && start
            < self.watermark)
    }
}

/// A trim or a purge that the shard's own task is asked for: the partition,
/// and the watermark or the generation.
pub type Enforcement = (IggyNamespace, u64);

/// The trims to ask for.
pub open spec fn trims_of(views: Seq<TrimView>) -> Seq<Enforcement> {
    views.filter(|view: TrimView| view.has_watermark()).map_values(
        |view: TrimView| (view.namespace, view.watermark),
    )
}

/// How many trims are not done yet.
pub open spec fn pending_trims(views: Seq<TrimView>) -> nat {
    views.filter(|view: TrimView| view.is_pending()).len()
}

/// The trims to ask for, with those counted that are not done yet. The shard
/// may be kept from a trim by something that no commit announces, so a pass
/// with a pending trim must not be the last one.
pub fn segment_truncations(views: &[TrimView], counters: &mut PassCounters) -> (trims: Vec<
    Enforcement,
>)
    requires
        old(counters).sum() + views@.len() <= usize::MAX,
    ensures
        trims@ == trims_of(views@),
        *final(counters) == (PassCounters {
            trims_pending: (old(counters).trims_pending + pending_trims(views@)) as usize,
            ..*old(counters)
        }),
{
    let ghost trimmed = |view: TrimView| view.has_watermark();
    let ghost pending = |view: TrimView| view.is_pending();
    let ghost request = |view: TrimView| (view.namespace, view.watermark);
    let ghost before = *counters;
    let mut trims: Vec<Enforcement> = Vec::new();
    let mut index: usize = 0;
    proof {
        lemma_filter_map_step(views@, trimmed, request, 0);
        lemma_filter_step(views@, pending, 0);
    }
    while index < views.len()
        invariant
            index <= views@.len(),
            trimmed == (|view: TrimView| view.has_watermark()),
            pending == (|view: TrimView| view.is_pending()),
            request == (|view: TrimView| (view.namespace, view.watermark)),
            views@.take(views@.len() as int) == views@,
            trims@ == views@.take(index as int).filter(trimmed).map_values(request),
            views@.take(index as int).filter(pending).len() <= index,
            before.sum() + views@.len() <= usize::MAX,
            *counters == (PassCounters {
                trims_pending: (before.trims_pending + views@.take(index as int).filter(
                    pending,
                ).len()) as usize,
                ..before
            }),
        decreases views@.len() - index,
    {
        let view: TrimView = views[index];
        proof {
            lemma_filter_map_step(views@, trimmed, request, index as int);
            lemma_filter_step(views@, pending, index as int);
        }
        if view.watermark != 0 {
            trims.push((view.namespace, view.watermark));
            let done: bool = match view.first_segment_start {
                Some(start) => start >= view.watermark,
                None => true,
            };
            if !done {
                counters.trims_pending = counters.trims_pending + 1;
            }
        }
        index = index + 1;
    }
    trims
}

/// A held partition, the generation of its last committed purge, and the last
/// that it applied.
#[derive(Debug, Clone, Copy, PartialEq, Eq, Structural)]
pub struct PurgeView {
    pub namespace: IggyNamespace,
    pub committed: u64,
    /// None where the partition is gone by now.
    pub applied: Option<u64>,
}

impl PurgeView {
    /// Whether a purge is committed that the partition has not applied.
    pub open spec fn is_due(self) -> bool {
        self.committed > match self.applied {
            Some(applied) => applied,
            None => 0,
        }
    }
}

/// The purges to ask for.
pub open spec fn purges_of(views: Seq<PurgeView>) -> Seq<Enforcement> {
    views.filter(|view: PurgeView| view.is_due()).map_values(
        |view: PurgeView| (view.namespace, view.committed),
    )
}

/// The purges to ask for: those that are newer than what the partition last
/// applied.
pub fn partition_purges(views: &[PurgeView]) -> (purges: Vec<Enforcement>)
    ensures
        purges@ == purges_of(views@),
{
    let ghost due = |view: PurgeView| view.is_due();
    let ghost request = |view: PurgeView| (view.namespace, view.committed);
    let mut purges: Vec<Enforcement> = Vec::new();
    let mut index: usize = 0;
    proof {
        lemma_filter_map_step(views@, due, request, 0);
    }
    while index < views.len()
        invariant
            index <= views@.len(),
            due == (|view: PurgeView| view.is_due()),
            request == (|view: PurgeView| (view.namespace, view.committed)),
            views@.take(views@.len() as int) == views@,
            purges@ == views@.take(index as int).filter(due).map_values(request),
        decreases views@.len() - index,
    {
        let view: PurgeView = views[index];
        proof {
            lemma_filter_map_step(views@, due, request, index as int);
        }
        let applied: u64 = match view.applied {
            Some(applied) => applied,
            None => 0,
        };
        if view.committed > applied {
            purges.push((view.namespace, view.committed));
        }
        index = index + 1;
    }
    purges
}

} // verus!
