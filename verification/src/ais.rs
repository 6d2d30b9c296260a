//! The AIS feed (aisstream.io): vessel position reports pushed over a WebSocket.

use crate::config::AppConfig;
use crate::engine::{Engine, marked, updated};
use crate::model::{EntityType, ObjectView, TrackedObject, distinct_tag_names, tag_texts};
use crate::text::{decimal, decimal_text, has_prefix, same_text, starts_with, trim, trimmed, utf8_text};
use vstd::prelude::*;
use vstd::utf8::{decode_utf8, valid_utf8};

verus! {

/// How long to wait before connecting again after the connection ends or the
/// subscription cannot be sent, in seconds.
pub const RECONNECT_DELAY_SECS: u64 = 5;

/// Who a report is about.
#[derive(Debug)]
pub struct AisMetaData {
    pub mmsi: u32,
    pub ship_name: String,
    pub time_utc: String,
}

/// A vessel's position report, with its readings in the forms the tracked object takes:
/// the course over ground as the decimal text that `f64` renders, speed and heading as
/// the bit patterns of the `f32` they become, the position as `f64` bit patterns.
#[derive(Debug)]
pub struct AisPositionReport {
    pub cog_text: Option<String>,
    pub sog_bits: Option<u32>,
    pub heading_bits: Option<u32>,
    pub navigational_status: Option<u32>,
    pub latitude_bits: u64,
    pub longitude_bits: u64,
}

/// The body of a message: a position report when the message is one.
#[derive(Debug)]
pub struct AisMessageBody {
    pub position_report: Option<AisPositionReport>,
}

/// One message of the feed.
#[derive(Debug)]
pub struct AisMessage {
    pub message_type: String,
    pub meta_data: AisMetaData,
    pub message: AisMessageBody,
}

/// The harvester of the AIS feed.
pub struct AisHarvester {
    pub config: AppConfig,
}

/// A WebSocket address: the configured one when it names the `ws://` or `wss://` scheme,
/// else the configured one behind `wss://`.
pub open spec fn ws_url(endpoint: Seq<char>) -> Seq<char> {
    if has_prefix(endpoint, "ws://"@) || has_prefix(endpoint, "wss://"@) {
        endpoint
    } else {
        "wss://"@ + endpoint
    }
}

/// Returns the WebSocket address for a configured endpoint.
pub fn websocket_url(endpoint: &str) -> (url: String)
    ensures
        url@ == ws_url(endpoint@),
{
    if !starts_with(endpoint, "ws://") && !starts_with(endpoint, "wss://") {
        String::from_str("wss://").concat(endpoint)
    } else {
        String::from_str(endpoint)
    }
}

/// The address connected to always names a WebSocket scheme, and giving it a scheme a
/// second time changes nothing.
pub proof fn law_ws_url_has_scheme(endpoint: Seq<char>)
    ensures
        has_prefix(ws_url(endpoint), "ws://"@) || has_prefix(ws_url(endpoint), "wss://"@),
        ws_url(ws_url(endpoint)) == ws_url(endpoint),
{
    let u = ws_url(endpoint);
    if !(has_prefix(endpoint, "ws://"@) || has_prefix(endpoint, "wss://"@)) {
        let p = "wss://"@;
        assert(u.subrange(0, p.len() as int) =~= p);
    }
}

impl AisHarvester {
    /// Returns the address to connect to.
    pub fn endpoint(&self) -> (url: String)
        ensures
            url@ == ws_url(self.config.endpoints.ais_stream@),
    {
        websocket_url(self.config.endpoints.ais_stream.as_str())
    }

    /// Returns the key to subscribe with.
    pub fn api_key(&self) -> (key: String)
        ensures
            key == self.config.api_keys.ais_stream,
    {
        self.config.api_keys.ais_stream.clone()
    }
}

/// What arrived on the feed's socket.
#[derive(Clone, Copy, Debug, PartialEq, Eq, Structural)]
pub enum FrameKind {
    Binary,
    Close,
    ReadError,
    Other,
}

/// What the reader does with it.
#[derive(Clone, Copy, Debug, PartialEq, Eq, Structural)]
pub enum FrameStep {
    /// Decode the frame as a message.
    Decode,
    /// Drop the connection and connect again.
    Reconnect,
    /// Ignore the frame.
    Skip,
}

/// Returns what to do with a frame: binary frames carry messages; a close or a read error
/// ends the connection; anything else is ignored.
pub fn frame_step(kind: FrameKind) -> (step: FrameStep)
    ensures
        step == match kind {
            FrameKind::Binary => FrameStep::Decode,
            FrameKind::Close => FrameStep::Reconnect,
            FrameKind::ReadError => FrameStep::Reconnect,
            FrameKind::Other => FrameStep::Skip,
        },
{
    match kind {
        FrameKind::Binary => FrameStep::Decode,
        FrameKind::Close => FrameStep::Reconnect,
        FrameKind::ReadError => FrameStep::Reconnect,
        FrameKind::Other => FrameStep::Skip,
    }
}

/// Returns the text of a binary frame, or `None` when it is not well-formed UTF-8.
pub fn decode_frame(data: &[u8]) -> (text: Option<String>)
    ensures
        text is Some <==> valid_utf8(data@),
        text matches Some(t) ==> t@ == decode_utf8(data@),
{
    utf8_text(data)
}

/// The tags of a vessel.
pub open spec fn vessel_tags(meta: AisMetaData, pos: AisPositionReport) -> Seq<(Seq<char>, Seq<char>)> {
    seq![
        ("mmsi"@, decimal(meta.mmsi as nat)),
        ("cog"@, match pos.cog_text {
            Some(c) => c@,
            None => "0"@,
        }),
        ("nav_status"@, decimal(
            match pos.navigational_status {
                Some(s) => s as nat,
                None => 0,
            },
        )),
        ("time_utc"@, meta.time_utc@),
    ]
}

/// The object a message becomes: a vessel for a position report that carries one, else
/// nothing. A missing course is rendered as `0` (how `0.0f64` renders); a missing speed or
/// heading is `0.0f32`, whose bit pattern is 0.
pub open spec fn vessel_object(msg: AisMessage) -> Option<ObjectView> {
    if msg.message_type@ != "PositionReport"@ {
        None
    } else {
        match msg.message.position_report {
            Some(pos) => Some(
                ObjectView {
                    id: "ais:"@ + decimal(msg.meta_data.mmsi as nat),
                    callsign: Some(trimmed(msg.meta_data.ship_name@)),
                    lat_bits: pos.latitude_bits,
                    lon_bits: pos.longitude_bits,
                    altitude_bits: 0,
                    heading_bits: match pos.heading_bits {
                        Some(h) => h,
                        None => 0,
                    },
                    velocity_bits: match pos.sog_bits {
                        Some(v) => v,
                        None => 0,
                    },
                    entity_type: EntityType::Vessel,
                    tags: vessel_tags(msg.meta_data, pos),
                },
            ),
            None => None,
        }
    }
}

/// Vessels with different MMSIs are held under different ids.
pub proof fn law_vessel_id_follows_mmsi(a: AisMessage, b: AisMessage)
    requires
        vessel_object(a) is Some,
        vessel_object(b) is Some,
        a.meta_data.mmsi != b.meta_data.mmsi,
    ensures
        vessel_object(a)->0.id != vessel_object(b)->0.id,
{
    let ia = vessel_object(a)->0.id;
    let ib = vessel_object(b)->0.id;
    if ia == ib {
        let p = "ais:"@;
        assert(ia.subrange(p.len() as int, ia.len() as int) =~= decimal(a.meta_data.mmsi as nat));
        assert(ib.subrange(p.len() as int, ib.len() as int) =~= decimal(b.meta_data.mmsi as nat));
        crate::text::lemma_decimal_injective(a.meta_data.mmsi as nat, b.meta_data.mmsi as nat);
    }
}

/// A vessel's tags never share a name.
pub proof fn law_vessel_tag_names_distinct(msg: AisMessage)
    ensures
        vessel_object(msg) matches Some(v) ==> distinct_tag_names(v.tags),
{
    reveal_strlit("mmsi");
    reveal_strlit("cog");
    reveal_strlit("nav_status");
    reveal_strlit("time_utc");
    assert("mmsi"@[0] == 'm');
    assert("cog"@[0] == 'c');
    assert("nav_status"@[0] == 'n');
    assert("time_utc"@[0] == 't');
}

/// What a message becomes, in terms of its fields: a vessel exactly when it is a
/// `PositionReport` that carries a report, under `ais:` and its MMSI in decimal, at the
/// reported latitude and longitude, with the reported heading and speed (zero when missing)
/// and no altitude, named by its trimmed ship name, and tagged with its MMSI, course,
/// navigational status and time.
pub proof fn law_message_becomes_vessel(msg: AisMessage)
    ensures
        vessel_object(msg) is Some <==> (msg.message_type@ == "PositionReport"@
            && msg.message.position_report is Some),
        vessel_object(msg) matches Some(v) ==> {
            let pos = msg.message.position_report->0;
            &&& v.id == "ais:"@ + decimal(msg.meta_data.mmsi as nat)
            &&& v.lat_bits == pos.latitude_bits
            &&& v.lon_bits == pos.longitude_bits
            &&& v.altitude_bits == 0
            &&& (pos.heading_bits matches Some(h) ==> v.heading_bits == h)
            &&& (pos.heading_bits is None ==> v.heading_bits == 0)
            &&& (pos.sog_bits matches Some(s) ==> v.velocity_bits == s)
            &&& (pos.sog_bits is None ==> v.velocity_bits == 0)
            &&& v.entity_type == EntityType::Vessel
            &&& v.callsign == Some(trimmed(msg.meta_data.ship_name@))
            &&& v.tags.len() == 4
            &&& v.tags.contains(("mmsi"@, decimal(msg.meta_data.mmsi as nat)))
            &&& v.tags.contains(("time_utc"@, msg.meta_data.time_utc@))
            &&& (pos.cog_text matches Some(c) ==> v.tags.contains(("cog"@, c@)))
            &&& (pos.cog_text is None ==> v.tags.contains(("cog"@, "0"@)))
            &&& (pos.navigational_status matches Some(n) ==> v.tags.contains(
                ("nav_status"@, decimal(n as nat)),
            ))
            &&& (pos.navigational_status is None ==> v.tags.contains(("nav_status"@, decimal(0))))
        },
{
    if let Some(v) = vessel_object(msg) {
        assert(v.tags[0] == ("mmsi"@, decimal(msg.meta_data.mmsi as nat)));
        assert(v.tags[1].0 == "cog"@);
        assert(v.tags[2].0 == "nav_status"@);
        assert(v.tags[3] == ("time_utc"@, msg.meta_data.time_utc@));
    }
}

/// Returns the object a message becomes, if any.
pub fn message_to_object(msg: &AisMessage) -> (obj: Option<TrackedObject>)
    ensures
        match obj {
            Some(o) => vessel_object(*msg) == Some(o@),
            None => vessel_object(*msg) is None,
        },
        obj matches Some(o) ==> distinct_tag_names(o@.tags),
        obj is Some <==> (msg.message_type@ == "PositionReport"@ && msg.message.position_report is Some),
        obj matches Some(o) ==> {
            let pos = msg.message.position_report->0;
            &&& o@.id == "ais:"@ + decimal(msg.meta_data.mmsi as nat)
            &&& o@.lat_bits == pos.latitude_bits
            &&& o@.lon_bits == pos.longitude_bits
            &&& o@.entity_type == EntityType::Vessel
        },
{
    proof {
        law_vessel_tag_names_distinct(*msg);
        law_message_becomes_vessel(*msg);
    }
    if !same_text(msg.message_type.as_str(), "PositionReport") {
        return None;
    }
    match &msg.message.position_report {
        None => None,
        Some(pos) => {
            let mmsi = decimal_text(msg.meta_data.mmsi);
            let status = match pos.navigational_status {
                Some(s) => s,
                None => 0,
            };
            let mut tags: Vec<(String, String)> = Vec::new();
            tags.push((String::from_str("mmsi"), mmsi.clone()));
            let cog = match &pos.cog_text {
                Some(c) => c.clone(),
                None => String::from_str("0"),
            };
            tags.push((String::from_str("cog"), cog));
            tags.push((String::from_str("nav_status"), decimal_text(status)));
            tags.push((String::from_str("time_utc"), msg.meta_data.time_utc.clone()));
            let obj = TrackedObject {
                id: String::from_str("ais:").concat(mmsi.as_str()),
                callsign: Some(trim(msg.meta_data.ship_name.as_str())),
                lat_bits: pos.latitude_bits,
                lon_bits: pos.longitude_bits,
                altitude_bits: 0,
                heading_bits: match pos.heading_bits {
                    Some(h) => h,
                    None => 0,
                },
                velocity_bits: match pos.sog_bits {
                    Some(v) => v,
                    None => 0,
                },
                entity_type: EntityType::Vessel,
                tags,
            };
            assert(tag_texts(obj.tags@) =~= vessel_tags(msg.meta_data, *pos));
            Some(obj)
        },
    }
}

/// Stores the vessel a message reports, if it reports one; returns whether it did.
pub fn ingest_message(engine: &mut Engine, msg: &AisMessage) -> (stored: bool)
    requires
        old(engine).wf(),
    ensures
        final(engine).wf(),
        stored == vessel_object(*msg) is Some,
        stored == (msg.message_type@ == "PositionReport"@ && msg.message.position_report is Some),
        stored ==> final(engine).objects().contains_key("ais:"@ + decimal(msg.meta_data.mmsi as nat))
            && final(engine).objects()["ais:"@ + decimal(msg.meta_data.mmsi as nat)].lat_bits
            == msg.message.position_report->0.latitude_bits && final(engine).objects()["ais:"@
            + decimal(msg.meta_data.mmsi as nat)].lon_bits
            == msg.message.position_report->0.longitude_bits,
        match vessel_object(*msg) {
            Some(v) => final(engine).objects() == updated(old(engine).objects(), v)
                && final(engine).dirty() == marked(old(engine).dirty(), v),
            None => final(engine).objects() == old(engine).objects() && final(engine).dirty()
                == old(engine).dirty(),
        },
{
    proof {
        law_message_becomes_vessel(*msg);
    }
    match message_to_object(msg) {
        Some(obj) => {
            engine.update_object(obj);
            true
        },
        None => false,
    }
}

/// How many vessels were stored since the last report to the log.
pub struct VesselTally {
    pub count: u64,
}

/// The period between reports, in milliseconds.
pub const REPORT_PERIOD_MS: u64 = 30000;

impl VesselTally {
    /// A tally of nothing.
    pub fn new() -> (t: VesselTally)
        ensures
            t.count == 0,
    {
        VesselTally { count: 0 }
    }

    /// Counts one stored vessel. When `elapsed_ms` since the last report reaches the
    /// period, returns the count to report and starts counting again from zero.
    pub fn record(&mut self, elapsed_ms: u64) -> (report: Option<u64>)
        requires
            old(self).count < u64::MAX,
        ensures
            elapsed_ms >= REPORT_PERIOD_MS ==> report == Some((old(self).count + 1) as u64)
                && final(self).count == 0,
            elapsed_ms < REPORT_PERIOD_MS ==> report is None && final(self).count == old(
                self,
            ).count + 1,
    {
        self.count = self.count + 1;
        if elapsed_ms >= REPORT_PERIOD_MS {
            let n = self.count;
            self.count = 0;
            Some(n)
        } else {
            None
        }
    }
}

} // verus!
