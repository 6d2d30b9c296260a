use viper::engine::Engine;
use viper::model::{has_distinct_tag_names, EntityType, TrackedObject};

fn object(id: &str, lat: f64) -> TrackedObject {
    TrackedObject {
        id: id.to_string(),
        callsign: Some("CALL".to_string()),
        lat_bits: lat.to_bits(),
        lon_bits: 2.5f64.to_bits(),
        altitude_bits: 100.0f32.to_bits(),
        heading_bits: 90.0f32.to_bits(),
        velocity_bits: 12.0f32.to_bits(),
        entity_type: EntityType::Aircraft,
        tags: vec![("k".to_string(), "v".to_string())],
    }
}

fn ids(objs: &[TrackedObject]) -> Vec<String> {
    let mut v: Vec<String> = objs.iter().map(|o| o.id.clone()).collect();
    v.sort();
    v
}

#[test]
fn new_engine_is_empty() {
    let mut e = Engine::new();
    assert!(e.get_snapshot().is_empty());
    assert!(e.broadcaster_tick(1).is_none());
}

#[test]
fn update_shows_in_snapshot() {
    let mut e = Engine::new();
    e.update_object(object("adsb:a1", 1.0));
    e.update_object(object("adsb:b2", 2.0));
    let snap = e.get_snapshot();
    assert_eq!(ids(&snap), vec!["adsb:a1".to_string(), "adsb:b2".to_string()]);
    let a = snap.iter().find(|o| o.id == "adsb:a1").unwrap();
    assert_eq!(f64::from_bits(a.lat_bits), 1.0);
    assert_eq!(a.tags, vec![("k".to_string(), "v".to_string())]);
    assert_eq!(a.callsign.as_deref(), Some("CALL"));
}

#[test]
fn last_update_wins() {
    let mut e = Engine::new();
    e.update_object(object("ais:7", 1.0));
    e.update_object(object("ais:7", 3.0));
    let snap = e.get_snapshot();
    assert_eq!(snap.len(), 1);
    assert_eq!(f64::from_bits(snap[0].lat_bits), 3.0);
}

#[test]
fn remove_drops_object() {
    let mut e = Engine::new();
    e.update_object(object("ais:7", 1.0));
    e.update_object(object("ais:8", 1.0));
    e.remove_object("ais:7");
    e.remove_object("ais:absent");
    assert_eq!(ids(&e.get_snapshot()), vec!["ais:8".to_string()]);
}

#[test]
fn tick_batches_changed_objects_once() {
    let mut e = Engine::new();
    e.update_object(object("a", 1.0));
    e.update_object(object("b", 2.0));
    e.update_object(object("a", 5.0));
    let batch = e.broadcaster_tick(1234).expect("a batch");
    assert_eq!(batch.timestamp, 1234);
    assert!(batch.removals.is_empty());
    assert_eq!(ids(&batch.updates), vec!["a".to_string(), "b".to_string()]);
    let a = batch.updates.iter().find(|o| o.id == "a").unwrap();
    assert_eq!(f64::from_bits(a.lat_bits), 5.0);
    assert!(e.broadcaster_tick(1235).is_none());
    assert_eq!(e.get_snapshot().len(), 2);
}

#[test]
fn tick_skips_removed_objects() {
    let mut e = Engine::new();
    e.update_object(object("a", 1.0));
    e.remove_object("a");
    assert!(e.broadcaster_tick(9).is_none());
    e.update_object(object("b", 1.0));
    e.update_object(object("c", 1.0));
    e.remove_object("c");
    let batch = e.broadcaster_tick(10).expect("a batch");
    assert_eq!(ids(&batch.updates), vec!["b".to_string()]);
}

#[test]
fn clone_keeps_every_field() {
    let o = object("x", 4.0);
    let c = o.clone();
    assert_eq!(c.id, o.id);
    assert_eq!(c.callsign, o.callsign);
    assert_eq!(c.lat_bits, o.lat_bits);
    assert_eq!(c.tags, o.tags);
    assert_eq!(c.entity_type, o.entity_type);
}

#[test]
fn update_reaches_batch_through_other_changes() {
    let mut e = Engine::new();
    e.update_object(object("o", 1.0));
    e.update_object(object("p", 2.0));
    e.remove_object("p");
    e.update_object(object("q", 3.0));
    let batch = e.broadcaster_tick(1).expect("a batch");
    let mine: Vec<_> = batch.updates.iter().filter(|x| x.id == "o").collect();
    assert_eq!(mine.len(), 1);
    assert_eq!(f64::from_bits(mine[0].lat_bits), 1.0);
    assert_eq!(ids(&batch.updates), vec!["o".to_string(), "q".to_string()]);
}

#[test]
fn duplicate_tag_names_are_detected() {
    let t = |k: &str, v: &str| (k.to_string(), v.to_string());
    assert!(has_distinct_tag_names(&vec![]));
    assert!(has_distinct_tag_names(&vec![t("a", "1"), t("b", "1")]));
    assert!(!has_distinct_tag_names(&vec![t("a", "1"), t("b", "2"), t("a", "3")]));
    assert!(has_distinct_tag_names(&object("x", 0.0).tags));
}

#[test]
fn timing_constants() {
    assert_eq!(viper::engine::TICK_PERIOD_MS, 500);
    assert_eq!(viper::engine::BATCH_CHANNEL_CAPACITY, 1024);
    assert_eq!(viper::adsb::POLL_PERIOD_SECS, 10);
    assert_eq!(viper::firms::POLL_PERIOD_SECS, 600);
    assert_eq!(viper::ais::RECONNECT_DELAY_SECS, 5);
}
