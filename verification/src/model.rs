//! The objects the engine tracks and the batches of changes it hands out.
//!
//! Coordinates and motion readings are floating-point values in the feeds. The library
//! does no arithmetic on them: it carries each one as its IEEE-754 bit pattern
//! (`f64::to_bits` for coordinates, `f32::to_bits` for altitude, heading and velocity),
//! so that what a feed reported is stored and handed out unchanged.

use vstd::prelude::*;

verus! {

/// The kind of thing an object is.
#[derive(Clone, Copy, Debug, PartialEq, Eq, Structural)]
pub enum EntityType {
    Aircraft,
    Vessel,
    SignalNode,
    Orbital,
    HeatSpot,
    Unknown,
}

/// One tracked object: its identity, position, motion and descriptive tags.
#[derive(Debug)]
pub struct TrackedObject {
    /// Unique key, prefixed by the feed it came from (`adsb:`, `ais:`, `firms:`).
    pub id: String,
    pub callsign: Option<String>,
    /// Bit pattern of the latitude (`f64`).
    pub lat_bits: u64,
    /// Bit pattern of the longitude (`f64`).
    pub lon_bits: u64,
    /// Bit pattern of the altitude (`f32`).
    pub altitude_bits: u32,
    /// Bit pattern of the heading (`f32`).
    pub heading_bits: u32,
    /// Bit pattern of the velocity (`f32`).
    pub velocity_bits: u32,
    pub entity_type: EntityType,
    /// Tag names and values, in the order in which they were set. No two share a name,
    /// as in a map from name to value; the engine holds only such objects. A list of pairs
    /// stands here because vstd's `HashMap` contract holds for a key type only under
    /// `obeys_key_model`, which vstd gives for integers and not for `String`.
    pub tags: Vec<(String, String)>,
}

/// The mathematical value of a `TrackedObject`.
pub struct ObjectView {
    pub id: Seq<char>,
    pub callsign: Option<Seq<char>>,
    pub lat_bits: u64,
    pub lon_bits: u64,
    pub altitude_bits: u32,
    pub heading_bits: u32,
    pub velocity_bits: u32,
    pub entity_type: EntityType,
    pub tags: Seq<(Seq<char>, Seq<char>)>,
}

/// The text of an optional string.
pub open spec fn opt_text(s: Option<String>) -> Option<Seq<char>> {
    match s {
        Some(t) => Some(t@),
        None => None,
    }
}

/// The text of each name and value of a list of tags.
pub open spec fn tag_texts(tags: Seq<(String, String)>) -> Seq<(Seq<char>, Seq<char>)> {
    tags.map_values(|p: (String, String)| (p.0@, p.1@))
}

impl View for TrackedObject {
    type V = ObjectView;

    open spec fn view(&self) -> ObjectView {
        ObjectView {
            id: self.id@,
            callsign: opt_text(self.callsign),
            lat_bits: self.lat_bits,
            lon_bits: self.lon_bits,
            altitude_bits: self.altitude_bits,
            heading_bits: self.heading_bits,
            velocity_bits: self.velocity_bits,
            entity_type: self.entity_type,
            tags: tag_texts(self.tags@),
        }
    }
}

/// No two tags share a name, as in a map from tag name to value.
pub open spec fn distinct_tag_names(tags: Seq<(Seq<char>, Seq<char>)>) -> bool {
    forall|i: int, j: int| 0 <= i < j < tags.len() ==> tags[i].0 != tags[j].0
}

/// Returns whether no two of `tags` share a name.
pub fn has_distinct_tag_names(tags: &Vec<(String, String)>) -> (r: bool)
    ensures
        r == distinct_tag_names(tag_texts(tags@)),
{
    let ghost t = tag_texts(tags@);
    let n = tags.len();
    for i in 0..n
        invariant
            n == tags.len(),
            t == tag_texts(tags@),
            forall|a: int, b: int| 0 <= a < b < n && a < i ==> t[a].0 != t[b].0,
    {
        for j in i + 1..n
            invariant
                n == tags.len(),
                t == tag_texts(tags@),
                i < n,
                forall|a: int, b: int| 0 <= a < b < n && a < i ==> t[a].0 != t[b].0,
                forall|b: int| i < b < j ==> t[i as int].0 != t[b].0,
        {
            if tags[i].0 == tags[j].0 {
                assert(t[i as int].0 == t[j as int].0);
                return false;
            }
        }
    }
    true
}

/// Appending tags that all carry a name none of `tags` carries, at most one of them,
/// keeps the names distinct; the names are then those before and `name`.
pub proof fn lemma_append_tag(
    tags: Seq<(Seq<char>, Seq<char>)>,
    extra: Seq<(Seq<char>, Seq<char>)>,
    names: Set<Seq<char>>,
    name: Seq<char>,
)
    requires
        distinct_tag_names(tags),
        forall|i: int| 0 <= i < tags.len() ==> names.contains(#[trigger] tags[i].0),
        !names.contains(name),
        extra.len() <= 1,
        forall|i: int| 0 <= i < extra.len() ==> #[trigger] extra[i].0 == name,
    ensures
        distinct_tag_names(tags + extra),
        forall|i: int|
            0 <= i < (tags + extra).len() ==> names.insert(name).contains(#[trigger] (tags + extra)[i].0),
{
    let all = tags + extra;
    assert forall|i: int, j: int| 0 <= i < j < all.len() implies all[i].0 != all[j].0 by {
        if j >= tags.len() {
            assert(names.contains(all[i].0));
        }
    }
}

/// The views of a sequence of objects.
pub open spec fn views(objs: Seq<TrackedObject>) -> Seq<ObjectView> {
    objs.map_values(|o: TrackedObject| o@)
}

fn clone_text(s: &Option<String>) -> (r: Option<String>)
    ensures
        opt_text(r) == opt_text(*s),
{
    match s {
        Some(t) => Some(t.clone()),
        None => None,
    }
}

fn clone_tags(tags: &Vec<(String, String)>) -> (r: Vec<(String, String)>)
    ensures
        r@ == tags@,
{
    let mut r: Vec<(String, String)> = Vec::new();
    for i in 0..tags.len()
        invariant
            r@ == tags@.subrange(0, i as int),
    {
        let p = &tags[i];
        r.push((p.0.clone(), p.1.clone()));
        assert(r@ =~= tags@.subrange(0, i + 1));
    }
    assert(r@ =~= tags@);
    r
}

impl Clone for TrackedObject {
    fn clone(&self) -> (r: Self)
        ensures
            r@ == self@,
    {
        let tags = clone_tags(&self.tags);
        let r = TrackedObject {
            id: self.id.clone(),
            callsign: clone_text(&self.callsign),
            lat_bits: self.lat_bits,
            lon_bits: self.lon_bits,
            altitude_bits: self.altitude_bits,
            heading_bits: self.heading_bits,
            velocity_bits: self.velocity_bits,
            entity_type: self.entity_type,
            tags,
        };
        assert(tag_texts(r.tags@) =~= tag_texts(self.tags@));
        r
    }
}

/// The objects that changed since the previous batch, stamped with the time (milliseconds
/// since the Unix epoch) at which the batch was made.
#[derive(Debug)]
pub struct EntityDeltaBatch {
    pub timestamp: u64,
    pub updates: Vec<TrackedObject>,
    pub removals: Vec<String>,
}

} // verus!
