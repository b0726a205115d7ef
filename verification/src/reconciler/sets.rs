//! Sets of namespaces, and the live consumer groups of each topic.
use crate::namespace::IggyNamespace;
use crate::reconciler::collections::{
    groups_contains, groups_insert, groups_new, group_members, namespace_members,
    namespaces_contains, namespaces_insert, namespaces_new, topic_groups, topic_groups_get,
    topic_groups_insert, topic_groups_new, NamespaceKey,
};
use ahash::{AHashMap, AHashSet};
use vstd::prelude::*;

verus! {

/// A set of namespaces.
pub struct NamespaceSet {
    members: AHashSet<NamespaceKey>,
}

impl View for NamespaceSet {
    type V = Set<IggyNamespace>;

    closed spec fn view(&self) -> Set<IggyNamespace> {
        Set::new(
            |namespace: IggyNamespace|
                namespace_members(self.members).contains(
                    (namespace.stream_id, namespace.topic_id, namespace.partition_id),
                ),
        )
    }
}

impl NamespaceSet {
    /// No namespaces.
    pub fn new() -> (set: Self)
        ensures
            set@ == Set::<IggyNamespace>::empty(),
    {
        let set = NamespaceSet { members: namespaces_new() };
        assert(set@ =~= Set::<IggyNamespace>::empty());
        set
    }

    /// Adds a namespace.
    pub fn insert(&mut self, namespace: IggyNamespace)
        ensures
            final(self)@ == old(self)@.insert(namespace),
    {
        let ghost before = self@;
        namespaces_insert(
            &mut self.members,
            (namespace.stream_id, namespace.topic_id, namespace.partition_id),
        );
        assert(self@ =~= before.insert(namespace));
    }

    /// Whether `namespace` is in the set.
    pub fn contains(&self, namespace: IggyNamespace) -> (member: bool)
        ensures
            member == self@.contains(namespace),
    {
        namespaces_contains(
            &self.members,
            (namespace.stream_id, namespace.topic_id, namespace.partition_id),
        )
    }

    /// The set of the listed namespaces.
    pub fn from_slice(namespaces: &[IggyNamespace]) -> (set: Self)
        ensures
            set@ == namespaces@.to_set(),
    {
        let mut set = NamespaceSet::new();
        let mut index: usize = 0;
        assert(set@ =~= namespaces@.take(0).to_set());
        while index < namespaces.len()
            invariant
                index <= namespaces@.len(),
                set@ == namespaces@.take(index as int).to_set(),
            decreases namespaces@.len() - index,
        {
            set.insert(namespaces[index]);
            proof {
                lemma_set_of_take(namespaces@, index as int);
            }
            index = index + 1;
        }
        assert(namespaces@.take(index as int) =~= namespaces@);
        set
    }

    pub(crate) fn raw(&self) -> (members: &AHashSet<NamespaceKey>)
        ensures
            forall|namespace: IggyNamespace|
                self@.contains(namespace) == #[trigger] namespace_members(*members).contains(
                    (namespace.stream_id, namespace.topic_id, namespace.partition_id),
                ),
    {
        &self.members
    }
}

/// The set of a sequence's first elements grows by the next one.
pub(crate) proof fn lemma_set_of_take<T>(elements: Seq<T>, i: int)
    requires
        0 <= i < elements.len(),
    ensures
        elements.take(i + 1).to_set() == elements.take(i).to_set().insert(elements[i]),
{
    let longer = elements.take(i + 1);
    let shorter = elements.take(i);
    assert forall|element: T| longer.to_set().contains(element) == shorter.to_set().insert(
        elements[i],
    ).contains(element) by {
        if longer.contains(element) {
            let at = choose|at: int| 0 <= at < longer.len() && longer[at] == element;
            if at < i {
                assert(shorter[at] == element);
            }
        }
        if shorter.contains(element) {
            let at = choose|at: int| 0 <= at < shorter.len() && shorter[at] == element;
            assert(longer[at] == element);
        }
        assert(longer[i] == elements[i]);
    }
    assert(longer.to_set() =~= shorter.to_set().insert(elements[i]));
}

/// The consumer groups of each topic that has any.
pub struct LiveGroups {
    topics: AHashMap<(usize, usize), AHashSet<u64>>,
}

impl View for LiveGroups {
    type V = Map<(usize, usize), Set<u64>>;

    closed spec fn view(&self) -> Map<(usize, usize), Set<u64>> {
        topic_groups(self.topics)
    }
}

impl LiveGroups {
    /// No topic.
    pub fn new() -> (groups: Self)
        ensures
            groups@ == Map::<(usize, usize), Set<u64>>::empty(),
    {
        LiveGroups { topics: topic_groups_new() }
    }

    /// States the groups of one topic.
    pub fn insert(&mut self, stream_id: usize, topic_id: usize, group_ids: &[u64])
        ensures
            final(self)@ == old(self)@.insert((stream_id, topic_id), group_ids@.to_set()),
    {
        let mut groups: AHashSet<u64> = groups_new();
        let mut index: usize = 0;
        assert(group_members(groups) =~= group_ids@.take(0).to_set());
        while index < group_ids.len()
            invariant
                index <= group_ids@.len(),
                group_members(groups) == group_ids@.take(index as int).to_set(),
            decreases group_ids@.len() - index,
        {
            groups_insert(&mut groups, group_ids[index]);
            proof {
                lemma_set_of_take(group_ids@, index as int);
            }
            index = index + 1;
        }
        assert(group_ids@.take(index as int) =~= group_ids@);
        topic_groups_insert(&mut self.topics, (stream_id, topic_id), groups);
    }

    /// Whether a topic has a group with the given id.
    pub fn is_live(&self, stream_id: usize, topic_id: usize, group_id: u64) -> (live: bool)
        ensures
            live == group_is_live(self@, stream_id, topic_id, group_id),
    {
        match topic_groups_get(&self.topics, (stream_id, topic_id)) {
            Some(groups) => groups_contains(groups, group_id),
            None => false,
        }
    }
}

/// Whether a topic has a group with the given id.
pub open spec fn group_is_live(
    live: Map<(usize, usize), Set<u64>>,
    stream_id: usize,
    topic_id: usize,
    group_id: u64,
) -> bool {
    live.contains_key((stream_id, topic_id)) && live[(stream_id, topic_id)].contains(group_id)
}

} // verus!
