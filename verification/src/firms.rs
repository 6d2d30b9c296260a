//! The FIRMS feed (NASA): active fires, polled as CSV.

use crate::config::AppConfig;
use crate::engine::{
    Engine, law_storing_twice_changes_nothing, lemma_stored_object_is_held, marked_all, updated_all,
};
use crate::model::{
    EntityType, ObjectView, TrackedObject, distinct_tag_names, lemma_append_tag, tag_texts,
};
use vstd::prelude::*;

verus! {

/// The period between two polls of the feed, in seconds.
pub const POLL_PERIOD_SECS: u64 = 600;

/// How long one poll may take, in seconds.
pub const REQUEST_TIMEOUT_SECS: u64 = 30;

/// One row of the feed, with its readings in the forms the tracked object takes: the
/// position as `f64` bit patterns and as the decimal text that `f64` renders, the fire
/// radiative power as the decimal text that `f32` renders.
#[derive(Debug)]
pub struct FirmsCsvRecord {
    pub latitude_bits: u64,
    pub longitude_bits: u64,
    pub latitude_text: String,
    pub longitude_text: String,
    pub acq_date: String,
    pub acq_time: String,
    pub satellite: Option<String>,
    pub instrument: Option<String>,
    pub confidence: Option<String>,
    pub frp_text: Option<String>,
    pub daynight: Option<String>,
}

/// The harvester of the FIRMS feed.
pub struct FirmsHarvester {
    pub config: AppConfig,
}

/// The address polled: the world's fires seen by VIIRS on S-NPP in the last day.
pub open spec fn firms_endpoint(base: Seq<char>, key: Seq<char>) -> Seq<char> {
    base + "/api/area/csv/"@ + key + "/VIIRS_SNPP_NRT/world/1"@
}

impl FirmsHarvester {
    /// Returns the address to poll.
    pub fn endpoint(&self) -> (url: String)
        ensures
            url@ == firms_endpoint(self.config.endpoints.nasa_firms@, self.config.api_keys.nasa_firms@),
    {
        String::from_str(self.config.endpoints.nasa_firms.as_str()).concat("/api/area/csv/").concat(
            self.config.api_keys.nasa_firms.as_str(),
        ).concat("/VIIRS_SNPP_NRT/world/1")
    }
}

/// One tag when the value is present, none when it is absent.
pub open spec fn optional_tag(name: Seq<char>, value: Option<String>) -> Seq<(Seq<char>, Seq<char>)> {
    match value {
        Some(v) => seq![(name, v@)],
        None => Seq::empty(),
    }
}

/// The tags of a fire, in the order they are set.
pub open spec fn fire_tags(rec: FirmsCsvRecord) -> Seq<(Seq<char>, Seq<char>)> {
    seq![("source"@, "NASA_FIRMS"@), ("acq_date"@, rec.acq_date@), ("acq_time"@, rec.acq_time@)]
        + optional_tag("confidence"@, rec.confidence) + optional_tag("frp"@, rec.frp_text)
        + optional_tag("satellite"@, rec.satellite) + optional_tag("instrument"@, rec.instrument)
        + optional_tag("daynight"@, rec.daynight)
}

/// The id of a fire: its position, date and time.
pub open spec fn fire_id(rec: FirmsCsvRecord) -> Seq<char> {
    "firms:"@ + rec.latitude_text@ + "_"@ + rec.longitude_text@ + "_"@ + rec.acq_date@ + "_"@
        + rec.acq_time@
}

/// The object a fire becomes.
pub open spec fn fire_object(rec: FirmsCsvRecord) -> ObjectView {
    ObjectView {
        id: fire_id(rec),
        callsign: Some("THERMAL ANOMALY"@),
        lat_bits: rec.latitude_bits,
        lon_bits: rec.longitude_bits,
        altitude_bits: 0,
        heading_bits: 0,
        velocity_bits: 0,
        entity_type: EntityType::HeatSpot,
        tags: fire_tags(rec),
    }
}

/// The objects the readable rows become, in order; unreadable rows are skipped.
pub open spec fn fire_objects(rows: Seq<Result<FirmsCsvRecord, String>>) -> Seq<ObjectView>
    decreases rows.len(),
{
    if rows.len() == 0 {
        Seq::empty()
    } else {
        fire_objects(rows.drop_last()) + match rows.last() {
            Ok(rec) => seq![fire_object(rec)],
            Err(_) => Seq::empty(),
        }
    }
}

/// How many rows were readable.
pub open spec fn readable_rows(rows: Seq<Result<FirmsCsvRecord, String>>) -> nat
    decreases rows.len(),
{
    if rows.len() == 0 {
        0
    } else {
        readable_rows(rows.drop_last()) + if rows.last() is Ok {
            1nat
        } else {
            0nat
        }
    }
}

fn push_optional_tag(tags: &mut Vec<(String, String)>, name: &str, value: &Option<String>)
    ensures
        tag_texts(final(tags)@) == tag_texts(old(tags)@) + optional_tag(name@, *value),
{
    let ghost before = tags@;
    match value {
        Some(v) => {
            tags.push((String::from_str(name), v.clone()));
            assert(tag_texts(tags@) =~= tag_texts(before) + optional_tag(name@, *value));
        },
        None => {
            assert(tag_texts(tags@) =~= tag_texts(before) + optional_tag(name@, *value));
        },
    }
}

/// A fire's tags never share a name.
pub proof fn law_fire_tag_names_distinct(rec: FirmsCsvRecord)
    ensures
        distinct_tag_names(fire_tags(rec)),
{
    reveal_strlit("source");
    reveal_strlit("acq_date");
    reveal_strlit("acq_time");
    reveal_strlit("confidence");
    reveal_strlit("frp");
    reveal_strlit("satellite");
    reveal_strlit("instrument");
    reveal_strlit("daynight");
    assert("source"@[0] == 's' && "source"@[1] == 'o');
    assert("acq_date"@[0] == 'a' && "acq_date"@[4] == 'd');
    assert("acq_time"@[0] == 'a' && "acq_time"@[4] == 't');
    assert("confidence"@[0] == 'c');
    assert("frp"@[0] == 'f');
    assert("satellite"@[0] == 's' && "satellite"@[1] == 'a');
    assert("instrument"@[0] == 'i');
    assert("daynight"@[0] == 'd');
    let base: Seq<(Seq<char>, Seq<char>)> = seq![
        ("source"@, "NASA_FIRMS"@),
        ("acq_date"@, rec.acq_date@),
        ("acq_time"@, rec.acq_time@),
    ];
    let n0 = set!["source"@, "acq_date"@, "acq_time"@];
    assert(distinct_tag_names(base));
    let c = optional_tag("confidence"@, rec.confidence);
    lemma_append_tag(base, c, n0, "confidence"@);
    let n1 = n0.insert("confidence"@);
    let f = optional_tag("frp"@, rec.frp_text);
    lemma_append_tag(base + c, f, n1, "frp"@);
    let n2 = n1.insert("frp"@);
    let sa = optional_tag("satellite"@, rec.satellite);
    lemma_append_tag(base + c + f, sa, n2, "satellite"@);
    let n3 = n2.insert("satellite"@);
    let i = optional_tag("instrument"@, rec.instrument);
    lemma_append_tag(base + c + f + sa, i, n3, "instrument"@);
    let n4 = n3.insert("instrument"@);
    let d = optional_tag("daynight"@, rec.daynight);
    lemma_append_tag(base + c + f + sa + i, d, n4, "daynight"@);
}

/// What a readable row becomes, in terms of its fields: a heat spot named by its
/// position, date and time, at the row's latitude and longitude, standing still at no
/// altitude, called `THERMAL ANOMALY`, tagged with its source, date and time and with its
/// confidence, fire radiative power, satellite, instrument and day or night when it has
/// them.
pub proof fn law_row_becomes_heat_spot(rec: FirmsCsvRecord)
    ensures
        fire_object(rec).id == "firms:"@ + rec.latitude_text@ + "_"@ + rec.longitude_text@ + "_"@
            + rec.acq_date@ + "_"@ + rec.acq_time@,
        fire_object(rec).lat_bits == rec.latitude_bits,
        fire_object(rec).lon_bits == rec.longitude_bits,
        fire_object(rec).altitude_bits == 0,
        fire_object(rec).heading_bits == 0,
        fire_object(rec).velocity_bits == 0,
        fire_object(rec).entity_type == EntityType::HeatSpot,
        fire_object(rec).callsign == Some("THERMAL ANOMALY"@),
        fire_object(rec).tags.contains(("source"@, "NASA_FIRMS"@)),
        fire_object(rec).tags.contains(("acq_date"@, rec.acq_date@)),
        fire_object(rec).tags.contains(("acq_time"@, rec.acq_time@)),
        rec.confidence matches Some(c) ==> fire_object(rec).tags.contains(("confidence"@, c@)),
        rec.frp_text matches Some(f) ==> fire_object(rec).tags.contains(("frp"@, f@)),
        rec.satellite matches Some(x) ==> fire_object(rec).tags.contains(("satellite"@, x@)),
        rec.instrument matches Some(x) ==> fire_object(rec).tags.contains(("instrument"@, x@)),
        rec.daynight matches Some(x) ==> fire_object(rec).tags.contains(("daynight"@, x@)),
{
    let t = fire_object(rec).tags;
    let base: Seq<(Seq<char>, Seq<char>)> = seq![
        ("source"@, "NASA_FIRMS"@),
        ("acq_date"@, rec.acq_date@),
        ("acq_time"@, rec.acq_time@),
    ];
    let c = optional_tag("confidence"@, rec.confidence);
    let f = optional_tag("frp"@, rec.frp_text);
    let sa = optional_tag("satellite"@, rec.satellite);
    let i = optional_tag("instrument"@, rec.instrument);
    let d = optional_tag("daynight"@, rec.daynight);
    assert(t == base + c + f + sa + i + d);
    assert(t[0] == base[0]);
    assert(t[1] == base[1]);
    assert(t[2] == base[2]);
    if let Some(x) = rec.confidence {
        assert(t[3] == c[0]);
    }
    let k = (base + c).len() as int;
    if let Some(x) = rec.frp_text {
        assert(t[k] == f[0]);
    }
    let k = (base + c + f).len() as int;
    if let Some(x) = rec.satellite {
        assert(t[k] == sa[0]);
    }
    let k = (base + c + f + sa).len() as int;
    if let Some(x) = rec.instrument {
        assert(t[k] == i[0]);
    }
    let k = (base + c + f + sa + i).len() as int;
    if let Some(x) = rec.daynight {
        assert(t[k] == d[0]);
    }
}

/// Every readable row of a poll is among the objects the poll becomes, under its id.
pub proof fn lemma_readable_row_kept(rows: Seq<Result<FirmsCsvRecord, String>>, i: int)
    requires
        0 <= i < rows.len(),
        rows[i] is Ok,
    ensures
        exists|j: int|
            0 <= j < fire_objects(rows).len() && #[trigger] fire_objects(rows)[j].id == fire_id(
                rows[i]->Ok_0,
            ),
    decreases rows.len(),
{
    let rest = rows.drop_last();
    let tail: Seq<ObjectView> = match rows.last() {
        Ok(rec) => seq![fire_object(rec)],
        Err(_) => Seq::empty(),
    };
    assert(fire_objects(rows) == fire_objects(rest) + tail);
    if i == rows.len() - 1 {
        let j = fire_objects(rest).len() as int;
        assert(rows.last() == rows[i]);
        assert(tail == seq![fire_object(rows[i]->Ok_0)]);
        assert(fire_objects(rows)[j] == fire_object(rows[i]->Ok_0));
        assert(fire_objects(rows)[j].id == fire_id(rows[i]->Ok_0));
    } else {
        assert(rest[i] == rows[i]);
        lemma_readable_row_kept(rest, i);
        let j = choose|j: int|
            0 <= j < fire_objects(rest).len() && #[trigger] fire_objects(rest)[j].id == fire_id(
                rest[i]->Ok_0,
            );
        assert(fire_objects(rows)[j] == fire_objects(rest)[j]);
        assert(fire_objects(rows)[j].id == fire_id(rows[i]->Ok_0));
    }
}

/// After a poll is stored, every readable row of it is held under its id, built from its
/// position, date and time; unreadable rows do not stop the others.
pub proof fn law_readable_rows_are_held(
    objects: Map<Seq<char>, ObjectView>,
    rows: Seq<Result<FirmsCsvRecord, String>>,
    i: int,
)
    requires
        0 <= i < rows.len(),
        rows[i] is Ok,
    ensures
        updated_all(objects, fire_objects(rows)).contains_key(
            "firms:"@ + rows[i]->Ok_0.latitude_text@ + "_"@ + rows[i]->Ok_0.longitude_text@ + "_"@
                + rows[i]->Ok_0.acq_date@ + "_"@ + rows[i]->Ok_0.acq_time@,
        ),
{
    lemma_readable_row_kept(rows, i);
    let j = choose|j: int|
        0 <= j < fire_objects(rows).len() && #[trigger] fire_objects(rows)[j].id == fire_id(
            rows[i]->Ok_0,
        );
    lemma_stored_object_is_held(objects, fire_objects(rows), j);
}

/// Returns the object a fire becomes.
pub fn fire_to_object(rec: &FirmsCsvRecord) -> (obj: TrackedObject)
    ensures
        obj@ == fire_object(*rec),
        distinct_tag_names(obj@.tags),
        obj@.id == "firms:"@ + rec.latitude_text@ + "_"@ + rec.longitude_text@ + "_"@ + rec.acq_date@
            + "_"@ + rec.acq_time@,
        obj@.lat_bits == rec.latitude_bits,
        obj@.lon_bits == rec.longitude_bits,
        obj@.entity_type == EntityType::HeatSpot,
{
    proof {
        law_fire_tag_names_distinct(*rec);
        law_row_becomes_heat_spot(*rec);
    }
    let mut tags: Vec<(String, String)> = Vec::new();
    tags.push((String::from_str("source"), String::from_str("NASA_FIRMS")));
    tags.push((String::from_str("acq_date"), rec.acq_date.clone()));
    tags.push((String::from_str("acq_time"), rec.acq_time.clone()));
    assert(tag_texts(tags@) =~= seq![
        ("source"@, "NASA_FIRMS"@),
        ("acq_date"@, rec.acq_date@),
        ("acq_time"@, rec.acq_time@),
    ]);
    push_optional_tag(&mut tags, "confidence", &rec.confidence);
    push_optional_tag(&mut tags, "frp", &rec.frp_text);
    push_optional_tag(&mut tags, "satellite", &rec.satellite);
    push_optional_tag(&mut tags, "instrument", &rec.instrument);
    push_optional_tag(&mut tags, "daynight", &rec.daynight);
    let id = String::from_str("firms:").concat(rec.latitude_text.as_str()).concat("_").concat(
        rec.longitude_text.as_str(),
    ).concat("_").concat(rec.acq_date.as_str()).concat("_").concat(rec.acq_time.as_str());
    TrackedObject {
        id,
        callsign: Some(String::from_str("THERMAL ANOMALY")),
        lat_bits: rec.latitude_bits,
        lon_bits: rec.longitude_bits,
        altitude_bits: 0,
        heading_bits: 0,
        velocity_bits: 0,
        entity_type: EntityType::HeatSpot,
        tags,
    }
}

/// Storing the same poll of fires twice leaves the objects held, and the ids marked
/// changed, as storing it once does.
pub proof fn law_storing_a_fire_poll_twice_changes_nothing(
    objects: Map<Seq<char>, ObjectView>,
    dirty: Set<Seq<char>>,
    rows: Seq<Result<FirmsCsvRecord, String>>,
)
    ensures
        updated_all(updated_all(objects, fire_objects(rows)), fire_objects(rows)) == updated_all(
            objects,
            fire_objects(rows),
        ),
        marked_all(marked_all(dirty, fire_objects(rows)), fire_objects(rows)) == marked_all(
            dirty,
            fire_objects(rows),
        ),
{
    law_storing_twice_changes_nothing(objects, dirty, fire_objects(rows));
}

/// Stores the fire of every readable row, in order, and returns how many rows were
/// readable.
pub fn ingest_fires(engine: &mut Engine, rows: &Vec<Result<FirmsCsvRecord, String>>) -> (count:
    usize)
    requires
        old(engine).wf(),
    ensures
        final(engine).wf(),
        count == readable_rows(rows@),
        final(engine).objects() == updated_all(old(engine).objects(), fire_objects(rows@)),
        final(engine).dirty() == marked_all(old(engine).dirty(), fire_objects(rows@)),
        forall|i: int|
            0 <= i < rows.len() && (#[trigger] rows@[i]) is Ok ==> final(engine).objects().contains_key(
                "firms:"@ + rows@[i]->Ok_0.latitude_text@ + "_"@ + rows@[i]->Ok_0.longitude_text@
                    + "_"@ + rows@[i]->Ok_0.acq_date@ + "_"@ + rows@[i]->Ok_0.acq_time@,
            ),
{
    let ghost start_objects = engine.objects();
    let ghost start_dirty = engine.dirty();
    let mut count: usize = 0;
    for i in 0..rows.len()
        invariant
            engine.wf(),
            count == readable_rows(rows@.subrange(0, i as int)),
            count <= i,
            engine.objects() == updated_all(start_objects, fire_objects(rows@.subrange(0, i as int))),
            engine.dirty() == marked_all(start_dirty, fire_objects(rows@.subrange(0, i as int))),
    {
        let ghost prefix = rows@.subrange(0, i as int);
        let ghost next = rows@.subrange(0, i + 1);
        assert(next.drop_last() =~= prefix);
        assert(next.last() == rows@[i as int]);
        match &rows[i] {
            Ok(rec) => {
                let obj = fire_to_object(rec);
                let ghost v = obj@;
                engine.update_object(obj);
                assert((fire_objects(prefix) + seq![v]).drop_last() =~= fire_objects(prefix));
                count = count + 1;
            },
            Err(_) => {
                assert(fire_objects(prefix) + Seq::<ObjectView>::empty() =~= fire_objects(prefix));
            },
        }
    }
    assert(rows@.subrange(0, rows.len() as int) =~= rows@);
    proof {
        assert forall|i: int| 0 <= i < rows.len() && (#[trigger] rows@[i]) is Ok implies engine.objects().contains_key(
            "firms:"@ + rows@[i]->Ok_0.latitude_text@ + "_"@ + rows@[i]->Ok_0.longitude_text@ + "_"@
                + rows@[i]->Ok_0.acq_date@ + "_"@ + rows@[i]->Ok_0.acq_time@,
        ) by {
            law_readable_rows_are_held(start_objects, rows@, i);
        }
    }
    count
}

} // verus!
