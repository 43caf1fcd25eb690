//! The hash tables of the `ahash` crate that the node keeps, and what is believed of them.
//!
//! Verus does not read `ahash`. Each table type is declared here, a spec function names
//! what a table holds, and one small function per table operation makes the call.
use ahash::{AHashMap, AHashSet};
use vstd::prelude::*;

verus! {

/// `ahash::AHashMap`: a hash map keyed by `ahash::RandomState`.
#[verifier::external_type_specification]
#[verifier::external_body]
#[verifier::reject_recursive_types(K)]
#[verifier::reject_recursive_types(V)]
#[verifier::reject_recursive_types(S)]
pub struct ExAHashMap<K, V, S>(ahash::AHashMap<K, V, S>);

/// `ahash::AHashSet`: a hash set keyed by `ahash::RandomState`.
#[verifier::external_type_specification]
#[verifier::external_body]
#[verifier::reject_recursive_types(T)]
#[verifier::reject_recursive_types(S)]
pub struct ExAHashSet<T, S>(ahash::AHashSet<T, S>);

/// `ahash::RandomState`: the hasher that both tables use.
#[verifier::external_type_specification]
#[verifier::external_body]
pub struct ExRandomState(ahash::RandomState);

/// Storage options of a catalog: option name to option value.
pub type StorageOptions = AHashMap<String, String>;

/// What a table of positions holds: the text of each key, and its position.
pub uninterp spec fn slots_of(slots: AHashMap<String, usize>) -> Map<Seq<char>, usize>;

/// What a set of storage options holds: the text of each name, and the text of its value.
pub uninterp spec fn options_of(options: AHashMap<String, String>) -> Map<Seq<char>, Seq<char>>;

/// What a set of names holds: the text of each name.
pub uninterp spec fn names_of(names: AHashSet<String>) -> Set<Seq<char>>;

/// `AHashMap::new`: a map without entries.
#[verifier::external_body]
pub(crate) fn slots_new() -> (slots: AHashMap<String, usize>)
    ensures
        (slots_of(slots) == Map::<Seq<char>, usize>::empty()),
{
    AHashMap::new()
}

/// `AHashMap::get`: the value under a key, if the map has that key.
#[verifier::external_body]
pub(crate) fn slots_get(slots: &AHashMap<String, usize>, key: &str) -> (slot: Option<usize>)
    ensures
        slot == (if slots_of(*slots).dom().contains(key@) {
            Some(slots_of(*slots)[key@])
        } else {
            None
        }),
{
    slots.get(key).copied()
}

/// `AHashMap::insert`: puts a value under a key, in place of one that was there before.
#[verifier::external_body]
pub(crate) fn slots_insert(
    slots: &mut AHashMap<String, usize>,
    key: String,
    slot: usize,
) -> (before: Option<usize>)
    ensures
        slots_of(*final(slots)) == slots_of(*old(slots)).insert(key@, slot),
        before == (if slots_of(*old(slots)).dom().contains(key@) {
            Some(slots_of(*old(slots))[key@])
        } else {
            None
        }),
{
    slots.insert(key, slot)
}

/// `HashMap::is_empty`, which `AHashMap` hands on: whether the map has no entry.
#[verifier::external_body]
pub(crate) fn slots_is_empty(slots: &AHashMap<String, usize>) -> (empty: bool)
    ensures
        empty == (slots_of(*slots) == Map::<Seq<char>, usize>::empty()),
{
    slots.is_empty()
}

/// `HashMap::contains_key`, which `AHashMap` hands on: whether the map has a key.
#[verifier::external_body]
pub(crate) fn slots_contains(slots: &AHashMap<String, usize>, key: &str) -> (found: bool)
    ensures
        found == slots_of(*slots).dom().contains(key@),
{
    slots.contains_key(key)
}

/// `HashMap::clear`, which `AHashMap` hands on: takes every entry out.
#[verifier::external_body]
pub(crate) fn slots_clear(slots: &mut AHashMap<String, usize>)
    ensures
        (slots_of(*final(slots)) == Map::<Seq<char>, usize>::empty()),
{
    slots.clear()
}

/// `AHashMap::eq`: whether two maps hold the same entries.
#[verifier::external_body]
pub(crate) fn options_eq(
    left: &AHashMap<String, String>,
    right: &AHashMap<String, String>,
) -> (same: bool)
    ensures
        same == (options_of(*left) == options_of(*right)),
{
    left == right
}

/// `AHashMap::clone`: a map with the same entries.
#[verifier::external_body]
pub(crate) fn options_clone(options: &AHashMap<String, String>) -> (copy: AHashMap<String, String>)
    ensures
        options_of(copy) == options_of(*options),
{
    options.clone()
}

/// `AHashSet::new`: a set without members.
#[verifier::external_body]
pub(crate) fn names_new() -> (names: AHashSet<String>)
    ensures
        names_of(names) == Set::<Seq<char>>::empty(),
{
    AHashSet::new()
}

/// `HashSet::insert`, which `AHashSet` hands on: adds a member and says whether it is new.
#[verifier::external_body]
pub(crate) fn names_insert(names: &mut AHashSet<String>, name: String) -> (new: bool)
    ensures
        names_of(*final(names)) == names_of(*old(names)).insert(name@),
        new == !names_of(*old(names)).contains(name@),
{
    names.insert(name)
}

} // verus!
