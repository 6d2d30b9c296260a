use viper::adsb::{
    aircraft_to_object, deserialize_altitude, ingest_aircraft, AdsbHarvester, AirplanesLiveItem,
    AirplanesLiveResponse, AltitudeField,
};
use viper::ais::{
    decode_frame, frame_step, ingest_message, message_to_object, websocket_url, AisHarvester,
    AisMessage, AisMessageBody, AisMetaData, AisPositionReport, FrameKind, FrameStep, VesselTally,
};
use viper::config::{ApiKeys, AppConfig, LogLevel, ServiceEndpoints};
use viper::engine::Engine;
use viper::firms::{fire_to_object, ingest_fires, FirmsCsvRecord, FirmsHarvester};
use viper::model::EntityType;

fn config() -> AppConfig {
    AppConfig {
        debug_level: LogLevel::INFO,
        build_version: "1".into(),
        api_keys: ApiKeys {
            adsb_exchange: "a".into(),
            ais_stream: "ais-key".into(),
            n2yo: "n".into(),
            wigle_net_key: "w".into(),
            wigle_net_name: "wn".into(),
            open_cell_id: "o".into(),
            shodan: "s".into(),
            nasa_firms: "MAPKEY".into(),
        },
        endpoints: ServiceEndpoints {
            celestrak_gp: "https://celestrak.org/gp.php".into(),
            nasa_firms: "https://firms.modaps.eosdis.nasa.gov".into(),
            overpass_api: "https://overpass".into(),
            redis: "redis://r".into(),
            airplanes_live: "https://api.airplanes.live/v2".into(),
            ais_stream: "stream.aisstream.io/v0/stream".into(),
        },
    }
}

fn aircraft(hex: &str, positioned: bool) -> AirplanesLiveItem {
    AirplanesLiveItem {
        hex: hex.into(),
        flight: Some("UAL123  ".into()),
        r: Some("N123UA".into()),
        t: None,
        alt_baro_bits: None,
        gs_bits: Some(450.5f32.to_bits()),
        track_bits: Some(271.0f32.to_bits()),
        lat_bits: if positioned { Some(40.5f64.to_bits()) } else { None },
        lon_bits: Some((-73.25f64).to_bits()),
    }
}

#[test]
fn adsb_endpoint_keeps_the_double_slash() {
    let h = AdsbHarvester { config: config() };
    assert_eq!(h.endpoint(), "https://api.airplanes.live/v2//point/0/0/25000");
}

#[test]
fn altitude_field_reading() {
    assert_eq!(deserialize_altitude(AltitudeField::Number(3500.0f32.to_bits())), Some(3500.0f32.to_bits()));
    assert_eq!(deserialize_altitude(AltitudeField::Text("ground".into())), Some(0.0f32.to_bits()));
    assert_eq!(deserialize_altitude(AltitudeField::Text("GROUND".into())), None);
    assert_eq!(deserialize_altitude(AltitudeField::Other), None);
}

#[test]
fn aircraft_becomes_object() {
    let o = aircraft_to_object(&aircraft("a1b2c3", true)).expect("positioned");
    assert_eq!(o.id, "adsb:a1b2c3");
    assert_eq!(o.callsign.as_deref(), Some("UAL123"));
    assert_eq!(f64::from_bits(o.lat_bits), 40.5);
    assert_eq!(f64::from_bits(o.lon_bits), -73.25);
    assert_eq!(f32::from_bits(o.altitude_bits), 0.0);
    assert_eq!(f32::from_bits(o.heading_bits), 271.0);
    assert_eq!(f32::from_bits(o.velocity_bits), 450.5);
    assert_eq!(o.entity_type, EntityType::Aircraft);
    assert_eq!(o.tags, vec![("registration".to_string(), "N123UA".to_string())]);
    assert!(aircraft_to_object(&aircraft("ffffff", false)).is_none());
}

#[test]
fn aircraft_type_tag_follows_registration() {
    let mut item = aircraft("abc", true);
    item.t = Some("B738".into());
    let o = aircraft_to_object(&item).unwrap();
    assert_eq!(
        o.tags,
        vec![
            ("registration".to_string(), "N123UA".to_string()),
            ("aircraft_type".to_string(), "B738".to_string())
        ]
    );
}

#[test]
fn adsb_poll_stores_positioned_aircraft() {
    let mut e = Engine::new();
    let resp = AirplanesLiveResponse {
        ac: vec![aircraft("a", true), aircraft("b", false), aircraft("c", true)],
        msg: Some("No error".into()),
        now: 1,
    };
    assert_eq!(ingest_aircraft(&mut e, &resp), 3);
    let mut ids: Vec<String> = e.get_snapshot().into_iter().map(|o| o.id).collect();
    ids.sort();
    assert_eq!(ids, vec!["adsb:a".to_string(), "adsb:c".to_string()]);
}

fn position_message(kind: &str, with_report: bool) -> AisMessage {
    AisMessage {
        message_type: kind.into(),
        meta_data: AisMetaData { mmsi: 367_000_123, ship_name: " EVER GIVEN   ".into(), time_utc: "2024-01-01 00:00:00".into() },
        message: AisMessageBody {
            position_report: if with_report {
                Some(AisPositionReport {
                    cog_text: Some(12.5f64.to_string()),
                    sog_bits: Some(9.5f32.to_bits()),
                    heading_bits: Some(180.0f32.to_bits()),
                    navigational_status: None,
                    latitude_bits: 1.25f64.to_bits(),
                    longitude_bits: 103.5f64.to_bits(),
                })
            } else {
                None
            },
        },
    }
}

#[test]
fn ais_endpoint_gets_a_scheme() {
    assert_eq!(websocket_url("stream.aisstream.io/v0/stream"), "wss://stream.aisstream.io/v0/stream");
    assert_eq!(websocket_url("ws://localhost:9"), "ws://localhost:9");
    assert_eq!(websocket_url("wss://x"), "wss://x");
    let h = AisHarvester { config: config() };
    assert_eq!(h.endpoint(), "wss://stream.aisstream.io/v0/stream");
    assert_eq!(h.api_key(), "ais-key");
}

#[test]
fn ais_frames() {
    assert_eq!(frame_step(FrameKind::Binary), FrameStep::Decode);
    assert_eq!(frame_step(FrameKind::Close), FrameStep::Reconnect);
    assert_eq!(frame_step(FrameKind::ReadError), FrameStep::Reconnect);
    assert_eq!(frame_step(FrameKind::Other), FrameStep::Skip);
    assert_eq!(decode_frame("{\"a\":\"ü\"}".as_bytes()), Some("{\"a\":\"ü\"}".to_string()));
    assert_eq!(decode_frame(&[0x7b, 0xff, 0x7d]), None);
}

#[test]
fn ais_position_becomes_vessel() {
    let o = message_to_object(&position_message("PositionReport", true)).expect("a vessel");
    assert_eq!(o.id, "ais:367000123");
    assert_eq!(o.callsign.as_deref(), Some("EVER GIVEN"));
    assert_eq!(o.entity_type, EntityType::Vessel);
    assert_eq!(f32::from_bits(o.heading_bits), 180.0);
    assert_eq!(f32::from_bits(o.velocity_bits), 9.5);
    assert_eq!(o.altitude_bits, 0);
    assert_eq!(
        o.tags,
        vec![
            ("mmsi".to_string(), "367000123".to_string()),
            ("cog".to_string(), "12.5".to_string()),
            ("nav_status".to_string(), "0".to_string()),
            ("time_utc".to_string(), "2024-01-01 00:00:00".to_string()),
        ]
    );
    assert!(message_to_object(&position_message("ShipStaticData", true)).is_none());
    assert!(message_to_object(&position_message("PositionReport", false)).is_none());
}

#[test]
fn ais_missing_readings_default_to_zero() {
    let mut m = position_message("PositionReport", true);
    if let Some(p) = m.message.position_report.as_mut() {
        p.cog_text = None;
        p.sog_bits = None;
        p.heading_bits = None;
        p.navigational_status = Some(5);
    }
    let o = message_to_object(&m).unwrap();
    assert_eq!(o.tags[1], ("cog".to_string(), 0.0f64.to_string()));
    assert_eq!(o.tags[2], ("nav_status".to_string(), "5".to_string()));
    assert_eq!(o.heading_bits, 0.0f32.to_bits());
    assert_eq!(o.velocity_bits, (0.0f64 as f32).to_bits());
}

#[test]
fn ais_ingest_and_tally() {
    let mut e = Engine::new();
    assert!(ingest_message(&mut e, &position_message("PositionReport", true)));
    assert!(!ingest_message(&mut e, &position_message("Other", true)));
    assert_eq!(e.get_snapshot().len(), 1);
    let mut t = VesselTally::new();
    assert_eq!(t.record(10), None);
    assert_eq!(t.record(29_999), None);
    assert_eq!(t.record(30_000), Some(3));
    assert_eq!(t.count, 0);
    assert_eq!(t.record(5), None);
    assert_eq!(t.count, 1);
}

fn fire(date: &str, confidence: Option<&str>) -> FirmsCsvRecord {
    FirmsCsvRecord {
        latitude_bits: (-12.345f64).to_bits(),
        longitude_bits: 130.5f64.to_bits(),
        latitude_text: (-12.345f64).to_string(),
        longitude_text: 130.5f64.to_string(),
        acq_date: date.into(),
        acq_time: "0142".into(),
        satellite: Some("N".into()),
        instrument: Some("VIIRS".into()),
        confidence: confidence.map(|c| c.to_string()),
        frp_text: Some(3.75f32.to_string()),
        daynight: Some("N".into()),
    }
}

#[test]
fn firms_endpoint() {
    let h = FirmsHarvester { config: config() };
    assert_eq!(h.endpoint(), "https://firms.modaps.eosdis.nasa.gov/api/area/csv/MAPKEY/VIIRS_SNPP_NRT/world/1");
}

#[test]
fn fire_becomes_heat_spot() {
    let o = fire_to_object(&fire("2024-06-01", Some("n")));
    assert_eq!(o.id, "firms:-12.345_130.5_2024-06-01_0142");
    assert_eq!(o.callsign.as_deref(), Some("THERMAL ANOMALY"));
    assert_eq!(o.entity_type, EntityType::HeatSpot);
    let names: Vec<&str> = o.tags.iter().map(|t| t.0.as_str()).collect();
    assert_eq!(names, vec!["source", "acq_date", "acq_time", "confidence", "frp", "satellite", "instrument", "daynight"]);
    assert_eq!(o.tags[0].1, "NASA_FIRMS");
    assert_eq!(o.tags[4].1, "3.75");
    let p = fire_to_object(&fire("2024-06-01", None));
    assert_eq!(p.tags.len(), 7);
}

#[test]
fn firms_poll_skips_unreadable_rows() {
    let mut e = Engine::new();
    let rows = vec![Ok(fire("2024-06-01", None)), Err("bad row".to_string()), Ok(fire("2024-06-02", None))];
    assert_eq!(ingest_fires(&mut e, &rows), 2);
    assert_eq!(e.get_snapshot().len(), 2);
}

#[test]
fn feeds_use_distinct_prefixes() {
    let a = aircraft_to_object(&aircraft("1", true)).unwrap();
    let v = message_to_object(&position_message("PositionReport", true)).unwrap();
    let f = fire_to_object(&fire("d", None));
    assert!(a.id.starts_with("adsb:") && v.id.starts_with("ais:") && f.id.starts_with("firms:"));
    assert_ne!(a.id, v.id);
}

#[test]
fn websocket_url_is_stable() {
    for e in ["host/x", "ws://h", "wss://h", "http://h"] {
        let once = websocket_url(e);
        assert!(once.starts_with("ws://") || once.starts_with("wss://"));
        assert_eq!(websocket_url(&once), once);
    }
}

#[test]
fn different_vessels_get_different_ids() {
    let a = message_to_object(&position_message("PositionReport", true)).unwrap();
    let mut m = position_message("PositionReport", true);
    m.meta_data.mmsi = 36_700_012;
    let b = message_to_object(&m).unwrap();
    assert_eq!(b.id, "ais:36700012");
    assert_ne!(a.id, b.id);
}

fn snapshot_ids_and_lats(e: &Engine) -> Vec<(String, u64)> {
    let mut v: Vec<(String, u64)> = e.get_snapshot().into_iter().map(|o| (o.id, o.lat_bits)).collect();
    v.sort();
    v
}

#[test]
fn storing_a_fire_poll_twice_changes_nothing() {
    let rows = vec![Ok(fire("2024-06-01", Some("h"))), Err("x".to_string()), Ok(fire("2024-06-02", None))];
    let mut once = Engine::new();
    ingest_fires(&mut once, &rows);
    let mut twice = Engine::new();
    ingest_fires(&mut twice, &rows);
    ingest_fires(&mut twice, &rows);
    assert_eq!(snapshot_ids_and_lats(&once), snapshot_ids_and_lats(&twice));
}

#[test]
fn tag_names_are_distinct() {
    let mut item = aircraft("a", true);
    item.t = Some("A320".into());
    let objs = vec![
        aircraft_to_object(&item).unwrap(),
        message_to_object(&position_message("PositionReport", true)).unwrap(),
        fire_to_object(&fire("d", Some("l"))),
    ];
    for o in objs {
        let mut names: Vec<&String> = o.tags.iter().map(|t| &t.0).collect();
        let n = names.len();
        names.sort();
        names.dedup();
        assert_eq!(names.len(), n);
    }
}
