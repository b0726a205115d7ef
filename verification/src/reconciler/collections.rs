//! Hash maps and hash sets of the `ahash` crate, keyed by integers.
use ahash::{AHashMap, AHashSet, RandomState};
use vstd::prelude::*;

verus! {

/// Stream, topic and partition of a namespace.
pub type NamespaceKey = (usize, usize, usize);

/// Stream, topic and partition of a namespace, and whether the failure is that
/// of a delete.
pub type FailureKey = (usize, usize, usize, bool);

/// Attempts so far and the time of the next one.
pub type FailureValue = (u32, u64);

#[verifier::external_type_specification]
#[verifier::external_body]
pub struct ExRandomState(RandomState);

#[verifier::external_type_specification]
#[verifier::external_body]
#[verifier::reject_recursive_types(K)]
#[verifier::reject_recursive_types(V)]
#[verifier::reject_recursive_types(S)]
pub struct ExAHashMap<K, V, S>(AHashMap<K, V, S>);

#[verifier::external_type_specification]
#[verifier::external_body]
#[verifier::reject_recursive_types(T)]
#[verifier::reject_recursive_types(S)]
pub struct ExAHashSet<T, S>(AHashSet<T, S>);

/// What a map of failures holds.
pub uninterp spec fn failure_entries(map: AHashMap<FailureKey, FailureValue>) -> Map<
    FailureKey,
    FailureValue,
>;

/// What a set of namespaces holds.
pub uninterp spec fn namespace_members(set: AHashSet<NamespaceKey>) -> Set<NamespaceKey>;

/// What a set of group ids holds.
pub uninterp spec fn group_members(set: AHashSet<u64>) -> Set<u64>;

/// What a map from a topic to its set of group ids holds.
pub uninterp spec fn topic_groups(map: AHashMap<(usize, usize), AHashSet<u64>>) -> Map<
    (usize, usize),
    Set<u64>,
>;

/// `AHashMap::new`: an empty map.
#[verifier::external_body]
pub(crate) fn failures_new() -> (map: AHashMap<FailureKey, FailureValue>)
    ensures
        (failure_entries(map) == Map::<FailureKey, FailureValue>::empty()),
{
    AHashMap::new()
}

/// `HashMap::is_empty` through `AHashMap`'s deref: whether there is no entry.
#[verifier::external_body]
pub(crate) fn failures_is_empty(map: &AHashMap<FailureKey, FailureValue>) -> (empty: bool)
    ensures
        empty == (failure_entries(*map) == Map::<FailureKey, FailureValue>::empty()),
{
    map.is_empty()
}

/// `AHashMap::get`: the value of `key`, copied.
#[verifier::external_body]
pub(crate) fn failures_get(
    map: &AHashMap<FailureKey, FailureValue>,
    key: FailureKey,
) -> (value: Option<FailureValue>)
    ensures
        value == (if failure_entries(*map).contains_key(key) {
            Some(failure_entries(*map)[key])
        } else {
            None
        }),
{
    map.get(&key).copied()
}

/// `AHashMap::insert`: `value` becomes the value of `key`.
#[verifier::external_body]
pub(crate) fn failures_insert(
    map: &mut AHashMap<FailureKey, FailureValue>,
    key: FailureKey,
    value: FailureValue,
)
    ensures
        failure_entries(*final(map)) == failure_entries(*old(map)).insert(key, value),
{
    map.insert(key, value);
}

/// `AHashMap::remove`: `key` has no value any more.
#[verifier::external_body]
pub(crate) fn failures_remove(map: &mut AHashMap<FailureKey, FailureValue>, key: FailureKey)
    ensures
        failure_entries(*final(map)) == failure_entries(*old(map)).remove(key),
{
    map.remove(&key);
}

/// Whether the namespace of `key` is in one of the two sets.
pub open spec fn key_is_known(
    key: FailureKey,
    target: AHashSet<NamespaceKey>,
    local: AHashSet<NamespaceKey>,
) -> bool {
    let namespace = (key.0, key.1, key.2);
    namespace_members(target).contains(namespace) || namespace_members(local).contains(namespace)
}

fn known_key(
    key: &FailureKey,
    target: &AHashSet<NamespaceKey>,
    local: &AHashSet<NamespaceKey>,
) -> (known: bool)
    ensures
        known == key_is_known(*key, *target, *local),
{
    let namespace: NamespaceKey = (key.0, key.1, key.2);
    namespaces_contains(target, namespace) || namespaces_contains(local, namespace)
}

/// `HashMap::retain` through `AHashMap`'s deref: keeps the entries whose
/// namespace is in one of the two sets, and no other.
#[verifier::external_body]
pub(crate) fn failures_retain_known(
    map: &mut AHashMap<FailureKey, FailureValue>,
    target: &AHashSet<NamespaceKey>,
    local: &AHashSet<NamespaceKey>,
)
    ensures
        forall|key: FailureKey|
            #![trigger failure_entries(*final(map)).contains_key(key)]
            failure_entries(*final(map)).contains_key(key) == (failure_entries(
                *old(map),
            ).contains_key(key) && key_is_known(key, *target, *local)),
        forall|key: FailureKey|
            #![trigger failure_entries(*final(map))[key]]
            failure_entries(*final(map)).contains_key(key) ==> failure_entries(*final(map))[key]
                == failure_entries(*old(map))[key],
{
    map.retain(|key, _| known_key(key, target, local));
}

/// `AHashSet::new`: an empty set.
#[verifier::external_body]
pub(crate) fn namespaces_new() -> (set: AHashSet<NamespaceKey>)
    ensures
        namespace_members(set) == Set::<NamespaceKey>::empty(),
{
    AHashSet::new()
}

/// `HashSet::insert` through `AHashSet`'s deref: `key` is a member.
#[verifier::external_body]
pub(crate) fn namespaces_insert(set: &mut AHashSet<NamespaceKey>, key: NamespaceKey)
    ensures
        namespace_members(*final(set)) == namespace_members(*old(set)).insert(key),
{
    set.insert(key);
}

/// `HashSet::contains` through `AHashSet`'s deref: whether `key` is a member.
#[verifier::external_body]
pub(crate) fn namespaces_contains(set: &AHashSet<NamespaceKey>, key: NamespaceKey) -> (member: bool)
    ensures
        member == namespace_members(*set).contains(key),
{
    set.contains(&key)
}

/// `AHashSet::new`: an empty set.
#[verifier::external_body]
pub(crate) fn groups_new() -> (set: AHashSet<u64>)
    ensures
        group_members(set) == Set::<u64>::empty(),
{
    AHashSet::new()
}

/// `HashSet::insert` through `AHashSet`'s deref: `id` is a member.
#[verifier::external_body]
pub(crate) fn groups_insert(set: &mut AHashSet<u64>, id: u64)
    ensures
        group_members(*final(set)) == group_members(*old(set)).insert(id),
{
    set.insert(id);
}

/// `HashSet::contains` through `AHashSet`'s deref: whether `id` is a member.
#[verifier::external_body]
pub(crate) fn groups_contains(set: &AHashSet<u64>, id: u64) -> (member: bool)
    ensures
        member == group_members(*set).contains(id),
{
    set.contains(&id)
}

/// `AHashMap::new`: an empty map.
#[verifier::external_body]
pub(crate) fn topic_groups_new() -> (map: AHashMap<(usize, usize), AHashSet<u64>>)
    ensures
        (topic_groups(map) == Map::<(usize, usize), Set<u64>>::empty()),
{
    AHashMap::new()
}

/// `AHashMap::insert`: `groups` becomes the value of `topic`.
#[verifier::external_body]
pub(crate) fn topic_groups_insert(
    map: &mut AHashMap<(usize, usize), AHashSet<u64>>,
    topic: (usize, usize),
    groups: AHashSet<u64>,
)
    ensures
        topic_groups(*final(map)) == topic_groups(*old(map)).insert(topic, group_members(groups)),
{
    map.insert(topic, groups);
}

/// `AHashMap::get`: the set of `topic`.
#[verifier::external_body]
pub(crate) fn topic_groups_get(
    map: &AHashMap<(usize, usize), AHashSet<u64>>,
    topic: (usize, usize),
) -> (groups: Option<&AHashSet<u64>>)
    ensures
        groups is Some == topic_groups(*map).contains_key(topic),
        groups matches Some(found) ==> group_members(*found) == topic_groups(*map)[topic],
{
    map.get(&topic)
}

} // verus!
