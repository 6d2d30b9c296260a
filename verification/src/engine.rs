//! The engine: the current object of each id, and the ids changed since the last batch.
//!
//! Feeds call `update_object`; readers take `get_snapshot`; a ticker calls
//! `broadcaster_tick` at a fixed period and sends on each batch it returns.

use crate::model::{EntityDeltaBatch, ObjectView, TrackedObject, distinct_tag_names, views};
use crate::store::{
    drain_ids, id_entries, ids_empty, insert_id, insert_object, list_objects, lookup_object,
    new_id_set, new_object_map, object_entries, take_object,
};
use dashmap::{DashMap, DashSet};
use vstd::prelude::*;

verus! {

/// The period between two ticks of the broadcaster, in milliseconds.
pub const TICK_PERIOD_MS: u64 = 500;

/// How many batches the broadcast channel holds for a subscriber that falls behind.
pub const BATCH_CHANNEL_CAPACITY: usize = 1024;

/// The objects after `obj` has been stored under its id.
pub open spec fn updated(objects: Map<Seq<char>, ObjectView>, obj: ObjectView) -> Map<
    Seq<char>,
    ObjectView,
> {
    objects.insert(obj.id, obj)
}

/// The changed ids after `obj` has been stored.
pub open spec fn marked(dirty: Set<Seq<char>>, obj: ObjectView) -> Set<Seq<char>> {
    dirty.insert(obj.id)
}

/// The objects that the next batch carries: those whose id changed and that are still held.
pub open spec fn pending(objects: Map<Seq<char>, ObjectView>, dirty: Set<Seq<char>>) -> Map<
    Seq<char>,
    ObjectView,
> {
    objects.restrict(dirty)
}

/// The objects after each of `objs` has been stored in turn.
pub open spec fn updated_all(objects: Map<Seq<char>, ObjectView>, objs: Seq<ObjectView>) -> Map<
    Seq<char>,
    ObjectView,
>
    decreases objs.len(),
{
    if objs.len() == 0 {
        objects
    } else {
        updated(updated_all(objects, objs.drop_last()), objs.last())
    }
}

/// The changed ids after each of `objs` has been stored in turn.
pub open spec fn marked_all(dirty: Set<Seq<char>>, objs: Seq<ObjectView>) -> Set<Seq<char>>
    decreases objs.len(),
{
    if objs.len() == 0 {
        dirty
    } else {
        marked(marked_all(dirty, objs.drop_last()), objs.last())
    }
}

/// A change made to the engine between two ticks.
pub enum Change {
    /// `update_object` with an object of this view.
    Update(ObjectView),
    /// `remove_object` with this id.
    Remove(Seq<char>),
}

/// The objects and changed ids after one change.
pub open spec fn apply_change(
    objects: Map<Seq<char>, ObjectView>,
    dirty: Set<Seq<char>>,
    change: Change,
) -> (Map<Seq<char>, ObjectView>, Set<Seq<char>>) {
    match change {
        Change::Update(obj) => (updated(objects, obj), marked(dirty, obj)),
        Change::Remove(id) => (objects.remove(id), dirty),
    }
}

/// The objects and changed ids after each of `changes` in turn.
pub open spec fn apply_changes(
    objects: Map<Seq<char>, ObjectView>,
    dirty: Set<Seq<char>>,
    changes: Seq<Change>,
) -> (Map<Seq<char>, ObjectView>, Set<Seq<char>>)
    decreases changes.len(),
{
    if changes.len() == 0 {
        (objects, dirty)
    } else {
        let before = apply_changes(objects, dirty, changes.drop_last());
        apply_change(before.0, before.1, changes.last())
    }
}

/// Whether `change` removes the object held under `id`.
pub open spec fn removes(change: Change, id: Seq<char>) -> bool {
    change matches Change::Remove(r) && r == id
}

/// Whether `change` stores an object under `id`.
pub open spec fn stores(change: Change, id: Seq<char>) -> bool {
    change matches Change::Update(o) && o.id == id
}

/// No object holds two tags with the same name.
pub open spec fn well_tagged(objects: Map<Seq<char>, ObjectView>) -> bool {
    forall|k: Seq<char>| #[trigger] objects.contains_key(k) ==> distinct_tag_names(objects[k].tags)
}

/// Every object is stored under its own id.
pub open spec fn keyed_by_id(objects: Map<Seq<char>, ObjectView>) -> bool {
    forall|k: Seq<char>| #[trigger] objects.contains_key(k) ==> objects[k].id == k
}

/// `s` holds each object of `m` exactly once, in some order.
pub open spec fn lists(s: Seq<ObjectView>, m: Map<Seq<char>, ObjectView>) -> bool {
    &&& forall|i: int, j: int| 0 <= i < j < s.len() ==> s[i].id != s[j].id
    &&& forall|i: int| 0 <= i < s.len() ==> m.contains_key(#[trigger] s[i].id) && m[s[i].id] == s[i]
    &&& forall|k: Seq<char>| m.contains_key(k) ==> exists|i: int| 0 <= i < s.len() && s[i].id == k
}

/// The views of `u` list `m` when the objects of `u` have distinct ids, each is the object
/// `m` holds under its id, and every id of `m` is among them.
proof fn lemma_views_list(u: Seq<TrackedObject>, m: Map<Seq<char>, ObjectView>)
    requires
        forall|a: int, b: int| 0 <= a < b < u.len() ==> u[a]@.id != u[b]@.id,
        forall|a: int|
            0 <= a < u.len() ==> m.contains_key(#[trigger] u[a]@.id) && m[u[a]@.id] == u[a]@,
        forall|k: Seq<char>| m.contains_key(k) ==> exists|a: int| 0 <= a < u.len() && u[a]@.id == k,
    ensures
        lists(views(u), m),
{
    let s = views(u);
    assert forall|a: int, b: int| 0 <= a < b < s.len() implies s[a].id != s[b].id by {
        assert(s[a] == u[a]@);
        assert(s[b] == u[b]@);
    }
    assert forall|a: int| 0 <= a < s.len() implies m.contains_key(#[trigger] s[a].id) && m[s[a].id]
        == s[a] by {
        assert(s[a] == u[a]@);
    }
    assert forall|k: Seq<char>| m.contains_key(k) implies exists|a: int| 0 <= a < s.len() && s[a].id
        == k by {
        let a = choose|a: int| 0 <= a < u.len() && u[a]@.id == k;
        assert(s[a] == u[a]@);
    }
}

/// A batch that lists the pending objects holds exactly the held objects whose ids are
/// marked changed, each as held.
proof fn lemma_batch_is_changed_objects(
    u: Seq<TrackedObject>,
    objects: Map<Seq<char>, ObjectView>,
    dirty: Set<Seq<char>>,
)
    requires
        lists(views(u), pending(objects, dirty)),
    ensures
        forall|i: int|
            0 <= i < u.len() ==> dirty.contains(#[trigger] u[i]@.id) && objects.contains_key(u[i]@.id)
                && objects[u[i]@.id] == u[i]@,
        forall|k: Seq<char>|
            dirty.contains(k) && objects.contains_key(k) ==> exists|i: int|
                0 <= i < u.len() && #[trigger] u[i]@.id == k,
{
    let v = views(u);
    let p = pending(objects, dirty);
    assert forall|i: int| 0 <= i < u.len() implies dirty.contains(#[trigger] u[i]@.id)
        && objects.contains_key(u[i]@.id) && objects[u[i]@.id] == u[i]@ by {
        assert(v[i] == u[i]@);
        assert(p.contains_key(v[i].id));
    }
    assert forall|k: Seq<char>| dirty.contains(k) && objects.contains_key(k) implies exists|i: int|
        0 <= i < u.len() && #[trigger] u[i]@.id == k by {
        assert(p.contains_key(k));
        let i = choose|i: int| 0 <= i < v.len() && v[i].id == k;
        assert(v[i] == u[i]@);
    }
}

/// The store of tracked objects.
pub struct Engine {
    objects: DashMap<String, TrackedObject>,
    dirty_set: DashSet<String>,
}

impl Engine {
    /// Each object is held under its own id, and no object holds two tags with the same
    /// name. This is carried as a precondition rather than
    /// a type invariant: a type invariant obliges every call that borrows a field mutably to
    /// be `no_unwind`, which the collection's insert and remove do not promise.
    pub closed spec fn wf(&self) -> bool {
        forall|k: Seq<char>| #[trigger]
            object_entries(self.objects).contains_key(k) ==> object_entries(self.objects)[k].id@ == k
                && distinct_tag_names(object_entries(self.objects)[k]@.tags)
    }

    /// The object held under each id.
    pub closed spec fn objects(&self) -> Map<Seq<char>, ObjectView> {
        object_entries(self.objects).map_values(|o: TrackedObject| o@)
    }

    /// The ids changed since the last batch.
    pub closed spec fn dirty(&self) -> Set<Seq<char>> {
        id_entries(self.dirty_set)
    }

    /// An engine with no objects and nothing changed.
    pub fn new() -> (e: Engine)
        ensures
            e.wf(),
            e.objects().is_empty(),
            e.dirty().is_empty(),
    {
        let e = Engine { objects: new_object_map(), dirty_set: new_id_set() };
        assert(e.objects() =~= Map::empty());
        e
    }

    /// Stores `obj` under its id, replacing what was there, and marks the id changed. Tag
    /// names must be distinct, as the keys of a map are; `has_distinct_tag_names` tests it.
    pub fn update_object(&mut self, obj: TrackedObject)
        requires
            old(self).wf(),
            distinct_tag_names(obj@.tags),
        ensures
            final(self).wf(),
            final(self).objects() == updated(old(self).objects(), obj@),
            final(self).dirty() == marked(old(self).dirty(), obj@),
            (final(self).objects(), final(self).dirty()) == apply_change(
                old(self).objects(),
                old(self).dirty(),
                Change::Update(obj@),
            ),
            keyed_by_id(final(self).objects()),
            well_tagged(final(self).objects()),
    {
        let ghost before = object_entries(self.objects);
        let ghost v = obj@;
        let key = obj.id.clone();
        let mark = obj.id.clone();
        insert_object(&mut self.objects, key, obj);
        insert_id(&mut self.dirty_set, mark);
        assert(self.objects() =~= updated(before.map_values(|o: TrackedObject| o@), v));
    }

    /// Drops the object held under `id`, if any. The set of changed ids is left as it is.
    pub fn remove_object(&mut self, id: &str)
        requires
            old(self).wf(),
        ensures
            final(self).wf(),
            final(self).objects() == old(self).objects().remove(id@),
            final(self).dirty() == old(self).dirty(),
            (final(self).objects(), final(self).dirty()) == apply_change(
                old(self).objects(),
                old(self).dirty(),
                Change::Remove(id@),
            ),
            keyed_by_id(final(self).objects()),
            well_tagged(final(self).objects()),
    {
        let ghost before = object_entries(self.objects);
        take_object(&mut self.objects, id);
        assert(self.objects() =~= before.map_values(|o: TrackedObject| o@).remove(id@));
    }

    /// Every object held, each once, in an order left open.
    pub fn get_snapshot(&self) -> (snapshot: Vec<TrackedObject>)
        requires
            self.wf(),
        ensures
            lists(views(snapshot@), self.objects()),
            keyed_by_id(self.objects()),
            well_tagged(self.objects()),
    {
        let entries = list_objects(&self.objects);
        let mut snapshot: Vec<TrackedObject> = Vec::new();
        let ghost m = object_entries(self.objects);
        for i in 0..entries.len()
            invariant
                m == object_entries(self.objects),
                forall|k: Seq<char>| #[trigger] m.contains_key(k) ==> m[k].id@ == k,
                forall|a: int, b: int| 0 <= a < b < entries.len() ==> entries[a].0@ != entries[b].0@,
                forall|a: int|
                    0 <= a < entries.len() ==> m.contains_key(#[trigger] entries[a].0@) && entries[a].1@
                        == m[entries[a].0@]@,
                snapshot.len() == i,
                forall|a: int| 0 <= a < i ==> #[trigger] snapshot[a]@ == entries[a].1@,
        {
            snapshot.push(entries[i].1.clone());
        }
        proof {
            let o = self.objects();
            assert forall|a: int| 0 <= a < snapshot.len() implies #[trigger] snapshot[a]@.id
                == entries[a].0@ && o.contains_key(snapshot[a]@.id) && o[snapshot[a]@.id]
                == snapshot[a]@ by {
                assert(m.contains_key(entries[a].0@));
                assert(m[entries[a].0@].id@ == entries[a].0@);
            }
            assert forall|k: Seq<char>| o.contains_key(k) implies exists|a: int|
                0 <= a < snapshot.len() && snapshot[a]@.id == k by {
                let a = choose|a: int| 0 <= a < entries.len() && entries[a].0@ == k;
                assert(snapshot[a]@.id == entries[a].0@);
            }
            lemma_views_list(snapshot@, o);
        }
        snapshot
    }

    /// One period of the broadcaster: when ids changed since the last batch, forgets them
    /// and returns the batch of the objects still held under them, stamped with
    /// `timestamp`; returns `None` when no such object is held.
    pub fn broadcaster_tick(&mut self, timestamp: u64) -> (batch: Option<EntityDeltaBatch>)
        requires
            old(self).wf(),
        ensures
            final(self).wf(),
            final(self).objects() == old(self).objects(),
            final(self).dirty().is_empty(),
            batch is Some <==> !pending(old(self).objects(), old(self).dirty()).is_empty(),
            batch matches Some(b) ==> {
                &&& b.timestamp == timestamp
                &&& b.removals@.len() == 0
                &&& lists(views(b.updates@), pending(old(self).objects(), old(self).dirty()))
            },
            batch matches Some(b) ==> forall|i: int|
                0 <= i < b.updates@.len() ==> old(self).dirty().contains(#[trigger] b.updates@[i]@.id)
                    && old(self).objects().contains_key(b.updates@[i]@.id) && old(self).objects()[b.updates@[i]@.id]
                    == b.updates@[i]@,
            forall|k: Seq<char>|
                old(self).dirty().contains(k) && old(self).objects().contains_key(k) ==> (
                batch matches Some(b) && exists|i: int|
                    0 <= i < b.updates@.len() && #[trigger] b.updates@[i]@.id == k),
            keyed_by_id(final(self).objects()),
            well_tagged(final(self).objects()),
    {
        let ghost o = self.objects();
        let ghost d = self.dirty();
        let ghost p = pending(o, d);
        if ids_empty(&self.dirty_set) {
            assert(p =~= Map::empty());
            assert forall|k: Seq<char>| !d.contains(k) by {
                assert(d.is_empty());
            }
            return None;
        }
        let keys = drain_ids(&mut self.dirty_set);
        let ghost m = object_entries(self.objects);
        let mut updates: Vec<TrackedObject> = Vec::new();
        let ghost mut origin: Seq<int> = Seq::empty();
        for i in 0..keys.len()
            invariant
                m == object_entries(self.objects),
                o == m.map_values(|x: TrackedObject| x@),
                p == pending(o, d),
                forall|k: Seq<char>| #[trigger] m.contains_key(k) ==> m[k].id@ == k,
                forall|a: int, b: int| 0 <= a < b < keys.len() ==> keys[a]@ != keys[b]@,
                forall|a: int| 0 <= a < keys.len() ==> d.contains(#[trigger] keys[a]@),
                origin.len() == updates.len(),
                forall|a: int, b: int| 0 <= a < b < origin.len() ==> origin[a] < origin[b],
                forall|a: int|
                    0 <= a < origin.len() ==> 0 <= #[trigger] origin[a] < i && keys[origin[a]]@
                        == updates[a]@.id,
                forall|a: int|
                    0 <= a < updates.len() ==> p.contains_key(#[trigger] updates[a]@.id)
                        && p[updates[a]@.id] == updates[a]@,
                forall|t: int|
                    0 <= t < i && #[trigger] p.contains_key(keys[t]@) ==> exists|a: int|
                        0 <= a < origin.len() && #[trigger] origin[a] == t,
        {
            let found = lookup_object(&self.objects, keys[i].as_str());
            let ghost before = origin;
            match found {
                Some(obj) => {
                    proof {
                        assert(m.contains_key(keys[i as int]@));
                        assert(obj@.id == keys[i as int]@);
                        origin = origin.push(i as int);
                    }
                    updates.push(obj);
                    proof {
                        let n = (origin.len() - 1) as int;
                        assert(origin[n] == i);
                        assert forall|t: int|
                            0 <= t < i + 1 && #[trigger] p.contains_key(keys[t]@) implies exists|a: int|
                            0 <= a < origin.len() && #[trigger] origin[a] == t by {
                            if t < i {
                                let a = choose|a: int| 0 <= a < before.len() && before[a] == t;
                                assert(origin[a] == before[a]);
                            }
                        }
                    }
                },
                None => {
                    proof {
                        assert(!p.contains_key(keys[i as int]@));
                        assert forall|t: int|
                            0 <= t < i + 1 && #[trigger] p.contains_key(keys[t]@) implies exists|a: int|
                            0 <= a < origin.len() && #[trigger] origin[a] == t by {
                            if t < i {
                                let a = choose|a: int| 0 <= a < before.len() && before[a] == t;
                                assert(origin[a] == before[a]);
                            }
                        }
                    }
                },
            }
        }
        proof {
            assert forall|a: int, b: int| 0 <= a < b < updates.len() implies updates[a]@.id
                != updates[b]@.id by {
                assert(keys[origin[a]]@ == updates[a]@.id);
                assert(keys[origin[b]]@ == updates[b]@.id);
            }
            assert forall|k: Seq<char>| p.contains_key(k) implies exists|a: int|
                0 <= a < updates.len() && updates[a]@.id == k by {
                let t = choose|t: int| 0 <= t < keys.len() && keys[t]@ == k;
                assert(p.contains_key(keys[t]@));
                let a = choose|a: int| 0 <= a < origin.len() && origin[a] == t;
                assert(keys[origin[a]]@ == updates[a]@.id);
            }
        }
        if updates.len() == 0 {
            proof {
                if !p.is_empty() {
                    let k = p.dom().choose();
                    assert(p.contains_key(k));
                }
                assert forall|k: Seq<char>| !(d.contains(k) && o.contains_key(k)) by {
                    if d.contains(k) && o.contains_key(k) {
                        assert(p.contains_key(k));
                    }
                }
            }
            None
        } else {
            proof {
                assert(p.contains_key(updates[0]@.id));
            }
            let ghost u = updates@;
            let batch = EntityDeltaBatch { timestamp, updates, removals: Vec::new() };
            proof {
                lemma_views_list(u, p);
                lemma_batch_is_changed_objects(u, o, d);
            }
            Some(batch)
        }
    }
}

} // verus!

verus! {

/// An object stored since the last tick, and not removed since, is in the next batch as
/// it was stored.
pub proof fn law_update_reaches_next_batch(
    objects: Map<Seq<char>, ObjectView>,
    dirty: Set<Seq<char>>,
    obj: ObjectView,
)
    ensures
        pending(updated(objects, obj), marked(dirty, obj)).contains_key(obj.id),
        pending(updated(objects, obj), marked(dirty, obj))[obj.id] == obj,
{
}

/// Changes that never remove `id` keep it held and marked changed; when none of them
/// stores under `id` either, the object held under it is the one held before.
proof fn lemma_changes_keep_id(
    objects: Map<Seq<char>, ObjectView>,
    dirty: Set<Seq<char>>,
    id: Seq<char>,
    changes: Seq<Change>,
)
    requires
        objects.contains_key(id),
        dirty.contains(id),
        forall|i: int| 0 <= i < changes.len() ==> !removes(#[trigger] changes[i], id),
    ensures
        apply_changes(objects, dirty, changes).0.contains_key(id),
        apply_changes(objects, dirty, changes).1.contains(id),
        (forall|i: int| 0 <= i < changes.len() ==> !stores(#[trigger] changes[i], id))
            ==> apply_changes(objects, dirty, changes).0[id] == objects[id],
    decreases changes.len(),
{
    if changes.len() > 0 {
        let rest = changes.drop_last();
        assert forall|i: int| 0 <= i < rest.len() implies !removes(#[trigger] rest[i], id) by {
            assert(rest[i] == changes[i]);
        }
        lemma_changes_keep_id(objects, dirty, id, rest);
        assert(!removes(changes[changes.len() - 1], id));
        if forall|i: int| 0 <= i < changes.len() ==> !stores(#[trigger] changes[i], id) {
            assert forall|i: int| 0 <= i < rest.len() implies !stores(#[trigger] rest[i], id) by {
                assert(rest[i] == changes[i]);
            }
            assert(!stores(changes[changes.len() - 1], id));
        }
    }
}

/// An object stored since the last tick is in the next batch whatever other objects are
/// stored or removed in between, so long as its own id is not removed: the batch carries
/// the object held under its id when the tick runs, which is the one stored unless a later
/// object with the same id replaced it.
pub proof fn law_update_reaches_next_batch_through_changes(
    objects: Map<Seq<char>, ObjectView>,
    dirty: Set<Seq<char>>,
    obj: ObjectView,
    later: Seq<Change>,
)
    requires
        forall|i: int| 0 <= i < later.len() ==> !removes(#[trigger] later[i], obj.id),
    ensures
        ({
            let at_tick = apply_changes(updated(objects, obj), marked(dirty, obj), later);
            &&& pending(at_tick.0, at_tick.1).contains_key(obj.id)
            &&& pending(at_tick.0, at_tick.1)[obj.id] == at_tick.0[obj.id]
            &&& (forall|i: int| 0 <= i < later.len() ==> !stores(#[trigger] later[i], obj.id))
                ==> pending(at_tick.0, at_tick.1)[obj.id] == obj
        }),
{
    lemma_changes_keep_id(updated(objects, obj), marked(dirty, obj), obj.id, later);
}

/// The objects a batch carries are exactly the held objects whose ids were marked changed:
/// an id is pending when, and only when, it is both held and marked, and it carries the
/// object held. An object not stored since the last tick is never batched, and an object
/// whose id changed but that is no longer held is not batched either.
pub proof fn law_batch_is_the_changed_held_objects(
    objects: Map<Seq<char>, ObjectView>,
    dirty: Set<Seq<char>>,
    k: Seq<char>,
)
    ensures
        pending(objects, dirty).contains_key(k) <==> (objects.contains_key(k) && dirty.contains(k)),
        pending(objects, dirty).contains_key(k) ==> pending(objects, dirty)[k] == objects[k],
        !dirty.contains(k) ==> !pending(objects, dirty).contains_key(k),
{
}

/// Every object of a sequence stored in turn is held afterwards under its id.
pub proof fn lemma_stored_object_is_held(
    objects: Map<Seq<char>, ObjectView>,
    objs: Seq<ObjectView>,
    j: int,
)
    requires
        0 <= j < objs.len(),
    ensures
        updated_all(objects, objs).contains_key(objs[j].id),
    decreases objs.len(),
{
    if j < objs.len() - 1 {
        lemma_stored_object_is_held(objects, objs.drop_last(), j);
    }
}

/// The position of the last object of `objs` with id `k`, or -1 when none has it.
pub open spec fn last_with_id(objs: Seq<ObjectView>, k: Seq<char>) -> int
    decreases objs.len(),
{
    if objs.len() == 0 {
        -1
    } else if objs.last().id == k {
        objs.len() - 1
    } else {
        last_with_id(objs.drop_last(), k)
    }
}

/// After storing `objs` in turn, an id holds the last of them with that id, or what it
/// held before when none has it; an id is marked changed when it was before or one of them
/// has it.
proof fn lemma_store_all(
    objects: Map<Seq<char>, ObjectView>,
    dirty: Set<Seq<char>>,
    objs: Seq<ObjectView>,
    k: Seq<char>,
)
    ensures
        -1 <= last_with_id(objs, k) < objs.len(),
        last_with_id(objs, k) >= 0 ==> {
            &&& objs[last_with_id(objs, k)].id == k
            &&& updated_all(objects, objs).contains_key(k)
            &&& updated_all(objects, objs)[k] == objs[last_with_id(objs, k)]
        },
        last_with_id(objs, k) < 0 ==> {
            &&& updated_all(objects, objs).contains_key(k) == objects.contains_key(k)
            &&& objects.contains_key(k) ==> updated_all(objects, objs)[k] == objects[k]
        },
        marked_all(dirty, objs).contains(k) == (dirty.contains(k) || last_with_id(objs, k) >= 0),
    decreases objs.len(),
{
    if objs.len() > 0 {
        lemma_store_all(objects, dirty, objs.drop_last(), k);
    }
}

/// Storing the same objects a second time, in the same order, changes nothing: neither the
/// objects held nor the ids marked changed.
pub proof fn law_storing_twice_changes_nothing(
    objects: Map<Seq<char>, ObjectView>,
    dirty: Set<Seq<char>>,
    objs: Seq<ObjectView>,
)
    ensures
        updated_all(updated_all(objects, objs), objs) == updated_all(objects, objs),
        marked_all(marked_all(dirty, objs), objs) == marked_all(dirty, objs),
{
    let once = updated_all(objects, objs);
    let twice = updated_all(once, objs);
    let marked_once = marked_all(dirty, objs);
    assert forall|k: Seq<char>| #[trigger] twice.contains_key(k) == once.contains_key(k) && (
    once.contains_key(k) ==> twice[k] == once[k]) by {
        lemma_store_all(objects, dirty, objs, k);
        lemma_store_all(once, marked_once, objs, k);
    }
    assert(twice =~= once);
    assert forall|k: Seq<char>| #[trigger] marked_all(marked_once, objs).contains(k)
        == marked_once.contains(k) by {
        lemma_store_all(objects, dirty, objs, k);
        lemma_store_all(once, marked_once, objs, k);
    }
    assert(marked_all(marked_once, objs) =~= marked_once);
}

/// An object removed after it was stored is not in the next batch, though its id is
/// still marked changed.
pub proof fn law_removed_object_is_not_batched(
    objects: Map<Seq<char>, ObjectView>,
    dirty: Set<Seq<char>>,
    obj: ObjectView,
)
    ensures
        !pending(updated(objects, obj).remove(obj.id), marked(dirty, obj)).contains_key(obj.id),
{
}

/// A later object with the same id replaces an earlier one: only the last is kept.
pub proof fn law_last_update_wins(
    objects: Map<Seq<char>, ObjectView>,
    first: ObjectView,
    second: ObjectView,
)
    requires
        first.id == second.id,
    ensures
        updated(updated(objects, first), second) == updated(objects, second),
{
    assert(updated(updated(objects, first), second) =~= updated(objects, second));
}

/// Objects with different ids may be stored in either order.
pub proof fn law_updates_of_different_ids_commute(
    objects: Map<Seq<char>, ObjectView>,
    a: ObjectView,
    b: ObjectView,
)
    requires
        a.id != b.id,
    ensures
        updated(updated(objects, a), b) == updated(updated(objects, b), a),
{
    assert(updated(updated(objects, a), b) =~= updated(updated(objects, b), a));
}

/// Once a tick has forgotten the changed ids, nothing is pending: a second tick with no
/// update in between returns no batch.
pub proof fn law_nothing_pending_after_tick(objects: Map<Seq<char>, ObjectView>)
    ensures
        pending(objects, Set::empty()).is_empty(),
{
    assert(pending(objects, Set::empty()).dom() =~= Set::empty());
}

/// A snapshot taken after an object was stored holds that object.
pub proof fn law_snapshot_shows_update(
    snapshot: Seq<ObjectView>,
    objects: Map<Seq<char>, ObjectView>,
    obj: ObjectView,
)
    requires
        lists(snapshot, updated(objects, obj)),
    ensures
        snapshot.contains(obj),
{
    assert(updated(objects, obj).contains_key(obj.id));
    let i = choose|i: int| 0 <= i < snapshot.len() && snapshot[i].id == obj.id;
    assert(snapshot[i] == obj);
}

/// A batch holds no more objects than the engine: every object it carries is held under
/// its id.
pub proof fn law_batch_is_part_of_snapshot(
    batch: Seq<ObjectView>,
    snapshot: Seq<ObjectView>,
    objects: Map<Seq<char>, ObjectView>,
    dirty: Set<Seq<char>>,
)
    requires
        lists(batch, pending(objects, dirty)),
        lists(snapshot, objects),
    ensures
        forall|i: int| 0 <= i < batch.len() ==> snapshot.contains(#[trigger] batch[i]),
{
    assert forall|i: int| 0 <= i < batch.len() implies snapshot.contains(#[trigger] batch[i]) by {
        assert(objects.contains_key(batch[i].id));
        let j = choose|j: int| 0 <= j < snapshot.len() && snapshot[j].id == batch[i].id;
        assert(snapshot[j] == batch[i]);
    }
}

} // verus!
