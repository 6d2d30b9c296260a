//! The ADS-B feed (airplanes.live): aircraft positions polled over HTTP.

use crate::config::AppConfig;
use crate::engine::{
    Engine, law_storing_twice_changes_nothing, lemma_stored_object_is_held, marked_all, updated_all,
};
use crate::model::{EntityType, ObjectView, TrackedObject, distinct_tag_names, tag_texts};
use crate::text::{same_text, trim, trimmed};
use vstd::prelude::*;

verus! {

/// The period between two polls of the feed, in seconds.
pub const POLL_PERIOD_SECS: u64 = 10;

/// How long one poll may take, in seconds.
pub const REQUEST_TIMEOUT_SECS: u64 = 10;

/// The barometric altitude field of an aircraft as it arrives in the feed's JSON.
pub enum AltitudeField {
    /// A number, as the bit pattern of the `f32` it becomes.
    Number(u32),
    /// A string, such as `ground`.
    Text(String),
    /// Anything else (null, a list, an object).
    Other,
}

/// The altitude read from the field: a number as it is, `ground` as zero, anything else as
/// absent.
pub open spec fn altitude_of(field: AltitudeField) -> Option<u32> {
    match field {
        AltitudeField::Number(bits) => Some(bits),
        AltitudeField::Text(s) => if s@ == "ground"@ {
            Some(0u32)
        } else {
            None
        },
        AltitudeField::Other => None,
    }
}

/// Reads the altitude field of an aircraft. Zero is `0.0f32`, whose bit pattern is 0.
pub fn deserialize_altitude(field: AltitudeField) -> (alt: Option<u32>)
    ensures
        alt == altitude_of(field),
{
    match field {
        AltitudeField::Number(bits) => Some(bits),
        AltitudeField::Text(s) => if same_text(s.as_str(), "ground") {
            Some(0)
        } else {
            None
        },
        AltitudeField::Other => None,
    }
}

/// One aircraft of the feed. Numbers are bit patterns: `f32` for altitude, ground speed
/// and track, `f64` for latitude and longitude.
#[derive(Debug)]
pub struct AirplanesLiveItem {
    pub hex: String,
    pub flight: Option<String>,
    /// Registration.
    pub r: Option<String>,
    /// Aircraft type.
    pub t: Option<String>,
    pub alt_baro_bits: Option<u32>,
    pub gs_bits: Option<u32>,
    pub track_bits: Option<u32>,
    pub lat_bits: Option<u64>,
    pub lon_bits: Option<u64>,
}

/// One poll of the feed.
#[derive(Debug)]
pub struct AirplanesLiveResponse {
    pub ac: Vec<AirplanesLiveItem>,
    pub msg: Option<String>,
    pub now: u64,
}

/// The harvester of the ADS-B feed.
pub struct AdsbHarvester {
    pub config: AppConfig,
}

/// The address polled: the configured base, a slash, and the path of the global query.
pub open spec fn adsb_endpoint(base: Seq<char>) -> Seq<char> {
    base + "/"@ + "/point/0/0/25000"@
}

impl AdsbHarvester {
    /// Returns the address to poll.
    pub fn endpoint(&self) -> (url: String)
        ensures
            url@ == adsb_endpoint(self.config.endpoints.airplanes_live@),
    {
        String::from_str(self.config.endpoints.airplanes_live.as_str()).concat("/").concat(
            "/point/0/0/25000",
        )
    }
}

/// The tags of an aircraft: its registration and its type, those it has.
pub open spec fn aircraft_tags(item: AirplanesLiveItem) -> Seq<(Seq<char>, Seq<char>)> {
    let reg: Seq<(Seq<char>, Seq<char>)> = match item.r {
        Some(r) => seq![("registration"@, r@)],
        None => Seq::empty(),
    };
    let typ: Seq<(Seq<char>, Seq<char>)> = match item.t {
        Some(t) => seq![("aircraft_type"@, t@)],
        None => Seq::empty(),
    };
    reg + typ
}

/// The object an aircraft becomes; `None` for an aircraft without a position. Missing
/// altitude, heading and speed are zero.
pub open spec fn aircraft_object(item: AirplanesLiveItem) -> Option<ObjectView> {
    match (item.lat_bits, item.lon_bits) {
        (Some(lat), Some(lon)) => Some(
            ObjectView {
                id: "adsb:"@ + item.hex@,
                callsign: match item.flight {
                    Some(f) => Some(trimmed(f@)),
                    None => None,
                },
                lat_bits: lat,
                lon_bits: lon,
                altitude_bits: match item.alt_baro_bits {
                    Some(a) => a,
                    None => 0,
                },
                heading_bits: match item.track_bits {
                    Some(a) => a,
                    None => 0,
                },
                velocity_bits: match item.gs_bits {
                    Some(a) => a,
                    None => 0,
                },
                entity_type: EntityType::Aircraft,
                tags: aircraft_tags(item),
            },
        ),
        _ => None,
    }
}

/// The objects that a list of aircraft becomes, in order, skipping those without a
/// position.
pub open spec fn aircraft_objects(items: Seq<AirplanesLiveItem>) -> Seq<ObjectView>
    decreases items.len(),
{
    if items.len() == 0 {
        Seq::empty()
    } else {
        aircraft_objects(items.drop_last()) + match aircraft_object(items.last()) {
            Some(o) => seq![o],
            None => Seq::empty(),
        }
    }
}

/// An aircraft's tags never share a name.
pub proof fn law_aircraft_tag_names_distinct(item: AirplanesLiveItem)
    ensures
        aircraft_object(item) matches Some(a) ==> distinct_tag_names(a.tags),
{
    reveal_strlit("registration");
    reveal_strlit("aircraft_type");
    assert("registration"@[0] == 'r');
    assert("aircraft_type"@[0] == 'a');
}

/// What an aircraft becomes, in terms of its fields: an aircraft object exactly when it
/// has both a latitude and a longitude, under `adsb:` and its hex code, at its position,
/// with its altitude, track and ground speed (zero when a reading is missing), its flight
/// number trimmed as callsign (none without one), and a tag for its registration and for
/// its type when it has them.
pub proof fn law_aircraft_becomes_object(item: AirplanesLiveItem)
    ensures
        aircraft_object(item) is Some <==> (item.lat_bits is Some && item.lon_bits is Some),
        aircraft_object(item) matches Some(o) ==> {
            &&& o.id == "adsb:"@ + item.hex@
            &&& o.lat_bits == item.lat_bits->0
            &&& o.lon_bits == item.lon_bits->0
            &&& (item.alt_baro_bits matches Some(a) ==> o.altitude_bits == a)
            &&& (item.alt_baro_bits is None ==> o.altitude_bits == 0)
            &&& (item.track_bits matches Some(h) ==> o.heading_bits == h)
            &&& (item.track_bits is None ==> o.heading_bits == 0)
            &&& (item.gs_bits matches Some(v) ==> o.velocity_bits == v)
            &&& (item.gs_bits is None ==> o.velocity_bits == 0)
            &&& o.entity_type == EntityType::Aircraft
            &&& (item.flight matches Some(f) ==> o.callsign == Some(trimmed(f@)))
            &&& (item.flight is None ==> o.callsign is None)
            &&& (item.r matches Some(r) ==> o.tags.contains(("registration"@, r@)))
            &&& (item.t matches Some(t) ==> o.tags.contains(("aircraft_type"@, t@)))
            &&& o.tags.len() == (if item.r is Some { 1int } else { 0 }) + (if item.t is Some {
                1int
            } else {
                0
            })
        },
{
    if let Some(o) = aircraft_object(item) {
        let reg: Seq<(Seq<char>, Seq<char>)> = match item.r {
            Some(r) => seq![("registration"@, r@)],
            None => Seq::empty(),
        };
        let typ: Seq<(Seq<char>, Seq<char>)> = match item.t {
            Some(t) => seq![("aircraft_type"@, t@)],
            None => Seq::empty(),
        };
        assert(o.tags == reg + typ);
        if let Some(r) = item.r {
            assert(o.tags[0] == ("registration"@, r@));
        }
        if let Some(t) = item.t {
            assert(o.tags[o.tags.len() - 1] == ("aircraft_type"@, t@));
        }
    }
}

/// Every aircraft of a poll with a position is among the objects the poll becomes, under
/// `adsb:` and its hex code, whether or not it has a flight number.
pub proof fn lemma_positioned_aircraft_kept(items: Seq<AirplanesLiveItem>, i: int)
    requires
        0 <= i < items.len(),
        items[i].lat_bits is Some,
        items[i].lon_bits is Some,
    ensures
        exists|j: int|
            0 <= j < aircraft_objects(items).len() && #[trigger] aircraft_objects(items)[j].id
                == "adsb:"@ + items[i].hex@,
    decreases items.len(),
{
    let rest = items.drop_last();
    let tail: Seq<ObjectView> = match aircraft_object(items.last()) {
        Some(o) => seq![o],
        None => Seq::empty(),
    };
    assert(aircraft_objects(items) == aircraft_objects(rest) + tail);
    if i == items.len() - 1 {
        let j = aircraft_objects(rest).len() as int;
        assert(items.last() == items[i]);
        law_aircraft_becomes_object(items[i]);
        assert(aircraft_objects(items)[j] == aircraft_object(items.last())->0);
        assert(aircraft_objects(items)[j].id == "adsb:"@ + items[i].hex@);
    } else {
        assert(rest[i] == items[i]);
        lemma_positioned_aircraft_kept(rest, i);
        let j = choose|j: int|
            0 <= j < aircraft_objects(rest).len() && #[trigger] aircraft_objects(rest)[j].id == "adsb:"@
                + rest[i].hex@;
        assert(aircraft_objects(items)[j] == aircraft_objects(rest)[j]);
        assert(aircraft_objects(items)[j].id == "adsb:"@ + items[i].hex@);
    }
}

/// After a poll is stored, every aircraft of it with a position is held under `adsb:` and
/// its hex code.
pub proof fn law_positioned_aircraft_are_held(
    objects: Map<Seq<char>, ObjectView>,
    items: Seq<AirplanesLiveItem>,
    i: int,
)
    requires
        0 <= i < items.len(),
        items[i].lat_bits is Some,
        items[i].lon_bits is Some,
    ensures
        updated_all(objects, aircraft_objects(items)).contains_key("adsb:"@ + items[i].hex@),
{
    lemma_positioned_aircraft_kept(items, i);
    let j = choose|j: int|
        0 <= j < aircraft_objects(items).len() && #[trigger] aircraft_objects(items)[j].id == "adsb:"@
            + items[i].hex@;
    lemma_stored_object_is_held(objects, aircraft_objects(items), j);
}

/// Returns the object an aircraft becomes, or `None` when it has no position.
pub fn aircraft_to_object(item: &AirplanesLiveItem) -> (obj: Option<TrackedObject>)
    ensures
        match obj {
            Some(o) => aircraft_object(*item) == Some(o@),
            None => aircraft_object(*item) is None,
        },
        obj matches Some(o) ==> distinct_tag_names(o@.tags),
        obj is Some <==> (item.lat_bits is Some && item.lon_bits is Some),
        obj matches Some(o) ==> {
            &&& o@.id == "adsb:"@ + item.hex@
            &&& o@.lat_bits == item.lat_bits->0
            &&& o@.lon_bits == item.lon_bits->0
            &&& (item.alt_baro_bits matches Some(a) ==> o@.altitude_bits == a)
            &&& (item.alt_baro_bits is None ==> o@.altitude_bits == 0)
            &&& (item.track_bits matches Some(h) ==> o@.heading_bits == h)
            &&& (item.track_bits is None ==> o@.heading_bits == 0)
            &&& (item.gs_bits matches Some(v) ==> o@.velocity_bits == v)
            &&& (item.gs_bits is None ==> o@.velocity_bits == 0)
            &&& o@.entity_type == EntityType::Aircraft
        },
{
    proof {
        law_aircraft_tag_names_distinct(*item);
        law_aircraft_becomes_object(*item);
    }
    if item.lat_bits.is_none() || item.lon_bits.is_none() {
        return None;
    }
    let mut tags: Vec<(String, String)> = Vec::new();
    match &item.r {
        Some(reg) => tags.push((String::from_str("registration"), reg.clone())),
        None => {},
    }
    let ghost after_reg = tags@;
    match &item.t {
        Some(typ) => tags.push((String::from_str("aircraft_type"), typ.clone())),
        None => {},
    }
    let callsign = match &item.flight {
        Some(f) => Some(trim(f.as_str())),
        None => None,
    };
    let obj = TrackedObject {
        id: String::from_str("adsb:").concat(item.hex.as_str()),
        callsign,
        lat_bits: match item.lat_bits {
            Some(v) => v,
            None => 0,
        },
        lon_bits: match item.lon_bits {
            Some(v) => v,
            None => 0,
        },
        altitude_bits: match item.alt_baro_bits {
            Some(v) => v,
            None => 0,
        },
        heading_bits: match item.track_bits {
            Some(v) => v,
            None => 0,
        },
        velocity_bits: match item.gs_bits {
            Some(v) => v,
            None => 0,
        },
        entity_type: EntityType::Aircraft,
        tags,
    };
    assert(tag_texts(obj.tags@) =~= aircraft_tags(*item));
    Some(obj)
}

/// Storing the same poll of aircraft twice leaves the objects held, and the ids marked
/// changed, as storing it once does.
pub proof fn law_storing_an_aircraft_poll_twice_changes_nothing(
    objects: Map<Seq<char>, ObjectView>,
    dirty: Set<Seq<char>>,
    items: Seq<AirplanesLiveItem>,
)
    ensures
        updated_all(updated_all(objects, aircraft_objects(items)), aircraft_objects(items))
            == updated_all(objects, aircraft_objects(items)),
        marked_all(marked_all(dirty, aircraft_objects(items)), aircraft_objects(items))
            == marked_all(dirty, aircraft_objects(items)),
{
    law_storing_twice_changes_nothing(objects, dirty, aircraft_objects(items));
}

/// Stores every aircraft of a poll that has a position, in the order of the poll, and
/// returns how many aircraft the poll held.
pub fn ingest_aircraft(engine: &mut Engine, response: &AirplanesLiveResponse) -> (count: usize)
    requires
        old(engine).wf(),
    ensures
        final(engine).wf(),
        count == response.ac.len(),
        final(engine).objects() == updated_all(
            old(engine).objects(),
            aircraft_objects(response.ac@),
        ),
        final(engine).dirty() == marked_all(old(engine).dirty(), aircraft_objects(response.ac@)),
        forall|i: int|
            0 <= i < response.ac.len() && (#[trigger] response.ac@[i]).lat_bits is Some
                && response.ac@[i].lon_bits is Some ==> final(engine).objects().contains_key(
                "adsb:"@ + response.ac@[i].hex@,
            ),
{
    let items = &response.ac;
    let ghost start_objects = engine.objects();
    let ghost start_dirty = engine.dirty();
    for i in 0..items.len()
        invariant
            engine.wf(),
            engine.objects() == updated_all(
                start_objects,
                aircraft_objects(items@.subrange(0, i as int)),
            ),
            engine.dirty() == marked_all(start_dirty, aircraft_objects(items@.subrange(0, i as int))),
    {
        let ghost prefix = items@.subrange(0, i as int);
        let ghost next = items@.subrange(0, i + 1);
        assert(next.drop_last() =~= prefix);
        assert(next.last() == items@[i as int]);
        match aircraft_to_object(&items[i]) {
            Some(obj) => {
                let ghost v = obj@;
                engine.update_object(obj);
                assert(aircraft_objects(prefix) + seq![v] == aircraft_objects(next));
                assert((aircraft_objects(prefix) + seq![v]).drop_last() =~= aircraft_objects(prefix));
            },
            None => {
                assert(aircraft_objects(prefix) + Seq::<ObjectView>::empty() =~= aircraft_objects(
                    prefix,
                ));
            },
        }
    }
    assert(items@.subrange(0, items.len() as int) =~= items@);
    proof {
        assert forall|i: int|
            0 <= i < items.len() && (#[trigger] items@[i]).lat_bits is Some && items@[i].lon_bits
                is Some implies engine.objects().contains_key("adsb:"@ + items@[i].hex@) by {
            law_positioned_aircraft_are_held(start_objects, items@, i);
        }
    }
    items.len()
}

} // verus!
