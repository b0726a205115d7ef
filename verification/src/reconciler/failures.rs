//! What failed for which namespace, and when to try again.
use crate::namespace::IggyNamespace;
use crate::reconciler::collections::{
    failure_entries, failures_get, failures_insert, failures_is_empty, failures_new,
    failures_remove, failures_retain_known, key_is_known, FailureKey, FailureValue,
};
use crate::reconciler::sets::NamespaceSet;
use ahash::AHashMap;
use vstd::prelude::*;

verus! {

/// Nanoseconds before the second attempt.
pub const BACKOFF_BASE: u64 = 1_000_000_000;

/// The most nanoseconds between two attempts.
pub const BACKOFF_MAX: u64 = 60_000_000_000;

/// `2` to the power of `n`.
pub open spec fn doubled(n: nat) -> nat
    decreases n,
{
    if n == 0 {
        1
    } else {
        2 * doubled((n - 1) as nat)
    }
}

/// How long to wait after that many failed attempts: a second, doubled with
/// each attempt behind the first, a minute at most.
pub open spec fn backoff_after(attempts: u32) -> int {
    let shift: nat = if attempts == 0 {
        0
    } else if attempts > 7 {
        6
    } else {
        (attempts - 1) as nat
    };
    let unbounded = BACKOFF_BASE * doubled(shift);
    if unbounded > BACKOFF_MAX {
        BACKOFF_MAX as int
    } else {
        unbounded
    }
}

/// How long to wait after that many failed attempts.
pub fn next_backoff(attempts: u32) -> (nanos: u64)
    ensures
        nanos == backoff_after(attempts),
        BACKOFF_BASE <= nanos <= BACKOFF_MAX,
{
    let shift: u32 = if attempts == 0 {
        0
    } else if attempts > 7 {
        6
    } else {
        attempts - 1
    };
    let mut backoff: u64 = BACKOFF_BASE;
    let mut done: u32 = 0;
    while done < shift
        invariant
            done <= shift <= 6,
            backoff == BACKOFF_BASE * doubled(done as nat),
            doubled(done as nat) <= 64,
            BACKOFF_BASE <= backoff,
        decreases shift - done,
    {
        proof {
            reveal_with_fuel(doubled, 7);
        }
        backoff = backoff * 2;
        done = done + 1;
    }
    if backoff > BACKOFF_MAX {
        BACKOFF_MAX
    } else {
        backoff
    }
}

/// What was attempted. Each cause has its own budget, so that a delete that
/// keeps failing does not throttle a build.
#[derive(Debug, Clone, Copy, PartialEq, Eq, Hash, Structural)]
pub enum FailureCause {
    Add,
    Delete,
}

/// The attempts that failed in a row, and the earliest time of the next.
#[derive(Debug, Clone, Copy, PartialEq, Eq, Structural)]
pub struct FailureRecord {
    pub attempts: u32,
    /// Nanoseconds on the clock that the caller reads.
    pub next_retry_at: u64,
}

spec fn raw_key(key: (IggyNamespace, FailureCause)) -> FailureKey {
    (key.0.stream_id, key.0.topic_id, key.0.partition_id, key.1 is Delete)
}

fn raw_key_of(namespace: IggyNamespace, cause: FailureCause) -> (key: FailureKey)
    ensures
        key == raw_key((namespace, cause)),
{
    (
        namespace.stream_id,
        namespace.topic_id,
        namespace.partition_id,
        matches!(cause, FailureCause::Delete),
    )
}

spec fn typed_key(key: FailureKey) -> (IggyNamespace, FailureCause) {
    (
        IggyNamespace { stream_id: key.0, topic_id: key.1, partition_id: key.2 },
        if key.3 {
            FailureCause::Delete
        } else {
            FailureCause::Add
        },
    )
}

/// The failures of a shard's reconciler.
pub struct FailureState {
    records: AHashMap<FailureKey, FailureValue>,
}

impl View for FailureState {
    type V = Map<(IggyNamespace, FailureCause), FailureRecord>;

    closed spec fn view(&self) -> Map<(IggyNamespace, FailureCause), FailureRecord> {
        Map::new(
            |key: (IggyNamespace, FailureCause)|
                failure_entries(self.records).contains_key(raw_key(key)),
            |key: (IggyNamespace, FailureCause)|
                FailureRecord {
                    attempts: failure_entries(self.records)[raw_key(key)].0,
                    next_retry_at: failure_entries(self.records)[raw_key(key)].1,
                },
        )
    }
}

/// Whether an attempt has to wait.
pub open spec fn backed_off(
    failures: Map<(IggyNamespace, FailureCause), FailureRecord>,
    namespace: IggyNamespace,
    cause: FailureCause,
    now: u64,
) -> bool {
    failures.contains_key((namespace, cause)) && failures[(namespace, cause)].next_retry_at > now
}

/// The record of one more failure at `now`.
pub open spec fn failed_again(
    failures: Map<(IggyNamespace, FailureCause), FailureRecord>,
    namespace: IggyNamespace,
    cause: FailureCause,
    now: u64,
) -> FailureRecord {
    let before = if failures.contains_key((namespace, cause)) {
        failures[(namespace, cause)].attempts
    } else {
        0
    };
    let attempts = if before == u32::MAX {
        u32::MAX
    } else {
        (before + 1) as u32
    };
    FailureRecord { attempts, next_retry_at: (now + backoff_after(attempts)) as u64 }
}

/// What is recorded after an attempt that failed at `now`.
pub open spec fn after_failure(
    failures: Map<(IggyNamespace, FailureCause), FailureRecord>,
    namespace: IggyNamespace,
    cause: FailureCause,
    now: u64,
) -> Map<(IggyNamespace, FailureCause), FailureRecord> {
    failures.insert((namespace, cause), failed_again(failures, namespace, cause, now))
}

/// What is recorded after an attempt that succeeded.
pub open spec fn after_success(
    failures: Map<(IggyNamespace, FailureCause), FailureRecord>,
    namespace: IggyNamespace,
    cause: FailureCause,
) -> Map<(IggyNamespace, FailureCause), FailureRecord> {
    failures.remove((namespace, cause))
}

/// The records whose namespace is committed or held locally.
pub open spec fn still_known(
    failures: Map<(IggyNamespace, FailureCause), FailureRecord>,
    target: Set<IggyNamespace>,
    local: Set<IggyNamespace>,
) -> Map<(IggyNamespace, FailureCause), FailureRecord> {
    Map::new(
        |key: (IggyNamespace, FailureCause)|
            failures.contains_key(key) && (target.contains(key.0) || local.contains(key.0)),
        |key: (IggyNamespace, FailureCause)| failures[key],
    )
}

impl FailureState {
    /// No failures.
    pub fn new() -> (state: Self)
        ensures
            state@ == Map::<(IggyNamespace, FailureCause), FailureRecord>::empty(),
    {
        let state = FailureState { records: failures_new() };
        assert(state@ =~= Map::<(IggyNamespace, FailureCause), FailureRecord>::empty());
        state
    }

    /// Whether nothing failed.
    pub fn is_empty(&self) -> (empty: bool)
        ensures
            empty == (self@ == Map::<(IggyNamespace, FailureCause), FailureRecord>::empty()),
    {
        proof {
            let entries = failure_entries(self.records);
            if self@ == Map::<(IggyNamespace, FailureCause), FailureRecord>::empty() {
                assert forall|key: FailureKey| !#[trigger] entries.contains_key(key) by {
                    let typed = typed_key(key);
                    assert(raw_key(typed) == key);
                    assert(!self@.contains_key(typed));
                }
                assert(entries =~= Map::empty());
            } else if entries == Map::<FailureKey, FailureValue>::empty() {
                assert(self@ =~= Map::<(IggyNamespace, FailureCause), FailureRecord>::empty());
            }
        }
        failures_is_empty(&self.records)
    }

    /// The record of a namespace and a cause.
    pub fn get(&self, namespace: IggyNamespace, cause: FailureCause) -> (record: Option<
        FailureRecord,
    >)
        ensures
            record == (if self@.contains_key((namespace, cause)) {
                Some(self@[(namespace, cause)])
            } else {
                None
            }),
    {
        match failures_get(&self.records, raw_key_of(namespace, cause)) {
            Some((attempts, next_retry_at)) => Some(FailureRecord { attempts, next_retry_at }),
            None => None,
        }
    }

    /// Sets the record of a namespace and a cause.
    pub fn insert(&mut self, namespace: IggyNamespace, cause: FailureCause, record: FailureRecord)
        ensures
            final(self)@ == old(self)@.insert((namespace, cause), record),
    {
        let ghost before = self@;
        failures_insert(
            &mut self.records,
            raw_key_of(namespace, cause),
            (record.attempts, record.next_retry_at),
        );
        assert(self@ =~= before.insert((namespace, cause), record));
    }

    /// Forgets the record of a namespace and a cause.
    pub fn remove(&mut self, namespace: IggyNamespace, cause: FailureCause)
        ensures
            final(self)@ == old(self)@.remove((namespace, cause)),
    {
        let ghost before = self@;
        failures_remove(&mut self.records, raw_key_of(namespace, cause));
        assert(self@ =~= before.remove((namespace, cause)));
    }

    /// Forgets the records of every namespace that is in neither set.
    pub fn retain_known(&mut self, target: &NamespaceSet, local: &NamespaceSet)
        ensures
            final(self)@ == still_known(old(self)@, target@, local@),
    {
        let ghost before = self@;
        let target_members = target.raw();
        let local_members = local.raw();
        failures_retain_known(&mut self.records, target_members, local_members);
        proof {
            assert forall|key: (IggyNamespace, FailureCause)|
                #[trigger] self@.contains_key(key) == still_known(
                    before,
                    target@,
                    local@,
                ).contains_key(key) by {
                let raw = raw_key(key);
                assert(key_is_known(raw, *target_members, *local_members) == (target@.contains(
                    key.0,
                ) || local@.contains(key.0)));
            }
            assert(self@ =~= still_known(before, target@, local@));
        }
    }
}

} // verus!
