//! The concurrent collections behind the engine: a `DashMap` from object id to object and
//! a `DashSet` of ids changed since the last batch. Each method the engine uses has a
//! contract over the collection's contents.

use dashmap::{DashMap, DashSet};
use crate::model::TrackedObject;
use vstd::prelude::*;

verus! {

#[verifier::external_type_specification]
#[verifier::external_body]
#[verifier::reject_recursive_types(K)]
#[verifier::reject_recursive_types(V)]
#[verifier::reject_recursive_types(S)]
pub struct ExDashMap<K, V, S>(DashMap<K, V, S>);

#[verifier::external_type_specification]
#[verifier::external_body]
#[verifier::reject_recursive_types(K)]
#[verifier::reject_recursive_types(S)]
pub struct ExDashSet<K, S>(DashSet<K, S>);

/// What an object map holds: each key's text and the object stored under it.
pub uninterp spec fn object_entries(m: DashMap<String, TrackedObject>) -> Map<Seq<char>, TrackedObject>;

/// What an id set holds: the text of each id in it.
pub uninterp spec fn id_entries(s: DashSet<String>) -> Set<Seq<char>>;

/// `DashMap::new`: a map with no entries.
#[verifier::external_body]
pub(crate) fn new_object_map() -> (m: DashMap<String, TrackedObject>)
    ensures
        object_entries(m).is_empty(),
{
    DashMap::new()
}

/// `DashMap::insert`: afterwards `key` maps to `value` and nothing else changes; the value
/// that `key` mapped to before, if any, is handed back.
#[verifier::external_body]
pub(crate) fn insert_object(
    m: &mut DashMap<String, TrackedObject>,
    key: String,
    value: TrackedObject,
) -> (prev: Option<TrackedObject>)
    ensures
        object_entries(*final(m)) == object_entries(*old(m)).insert(key@, value),
        prev is Some <==> object_entries(*old(m)).contains_key(key@),
        prev matches Some(p) ==> p == object_entries(*old(m))[key@],
{
    m.insert(key, value)
}

/// `DashMap::remove`: afterwards `key` maps to nothing and nothing else changes; the entry
/// that was removed, if any, is handed back.
#[verifier::external_body]
pub(crate) fn take_object(m: &mut DashMap<String, TrackedObject>, key: &str) -> (removed: Option<
    (String, TrackedObject),
>)
    ensures
        object_entries(*final(m)) == object_entries(*old(m)).remove(key@),
        removed is Some <==> object_entries(*old(m)).contains_key(key@),
        removed matches Some(kv) ==> kv.0@ == key@ && kv.1 == object_entries(*old(m))[key@],
{
    m.remove(key)
}

/// `DashMap::get`, with the object found cloned (by `TrackedObject::clone`) out of the map.
#[verifier::external_body]
pub(crate) fn lookup_object(m: &DashMap<String, TrackedObject>, key: &str) -> (r: Option<
    TrackedObject,
>)
    ensures
        r is Some <==> object_entries(*m).contains_key(key@),
        r matches Some(o) ==> o@ == object_entries(*m)[key@]@,
{
    m.get(key).map(|entry| entry.value().clone())
}

/// `DashMap::iter`, with each entry's key and object cloned out: every entry exactly once,
/// in an order that depends on the map's hasher (seeded per process) and is left open.
#[verifier::external_body]
pub(crate) fn list_objects(m: &DashMap<String, TrackedObject>) -> (r: Vec<(String, TrackedObject)>)
    ensures
        forall|i: int, j: int| 0 <= i < j < r.len() ==> r[i].0@ != r[j].0@,
        forall|i: int|
            0 <= i < r.len() ==> object_entries(*m).contains_key(#[trigger] r[i].0@) && r[i].1@
                == object_entries(*m)[r[i].0@]@,
        forall|k: Seq<char>|
            object_entries(*m).contains_key(k) ==> exists|i: int| 0 <= i < r.len() && r[i].0@ == k,
{
    m.iter().map(|entry| (entry.key().clone(), entry.value().clone())).collect()
}

/// `DashSet::new`: a set with no ids.
#[verifier::external_body]
pub(crate) fn new_id_set() -> (s: DashSet<String>)
    ensures
        id_entries(s).is_empty(),
{
    DashSet::new()
}

/// `DashSet::insert`: afterwards `key` is in the set; the result tells whether it was absent.
#[verifier::external_body]
pub(crate) fn insert_id(s: &mut DashSet<String>, key: String) -> (added: bool)
    ensures
        id_entries(*final(s)) == id_entries(*old(s)).insert(key@),
        added == !id_entries(*old(s)).contains(key@),
{
    s.insert(key)
}

/// `DashSet::is_empty`.
#[verifier::external_body]
pub(crate) fn ids_empty(s: &DashSet<String>) -> (r: bool)
    ensures
        r == id_entries(*s).is_empty(),
{
    s.is_empty()
}

/// Moves `key` into `keys` and answers that the set should not keep it.
fn take_key(keys: &mut Vec<String>, key: &String) -> (keep: bool)
    ensures
        final(keys)@ == old(keys)@.push(*key),
        !keep,
{
    keys.push(key.clone());
    false
}

/// `DashSet::retain` with a predicate that moves each id it is shown into a list and keeps
/// none: `retain` shows every id exactly once, so the set ends empty and the list holds
/// each id it held, once, in an order left open.
#[verifier::external_body]
pub(crate) fn drain_ids(s: &mut DashSet<String>) -> (keys: Vec<String>)
    ensures
        id_entries(*final(s)).is_empty(),
        forall|i: int, j: int| 0 <= i < j < keys.len() ==> keys[i]@ != keys[j]@,
        forall|i: int| 0 <= i < keys.len() ==> id_entries(*old(s)).contains(#[trigger] keys[i]@),
        forall|k: Seq<char>|
            id_entries(*old(s)).contains(k) ==> exists|i: int| 0 <= i < keys.len() && keys[i]@ == k,
{
    let mut keys = Vec::new();
    s.retain(|k| take_key(&mut keys, k));
    keys
}

} // verus!
