use viper::comms::{next_step, ConnectionEvent, ConnectionStep, RpcCode, ViperIntelligenceEngine, ViperRest};
use viper::config::{ApiKeys, AppConfig, LogLevel, ServiceEndpoints};
use viper::orbital::{redis_key, sweep_url, Groups};

#[test]
fn connection_steps() {
    assert_eq!(next_step(ConnectionEvent::Batch), ConnectionStep::SendBatch);
    assert_eq!(next_step(ConnectionEvent::Lagged(4)), ConnectionStep::ReportLag);
    assert_eq!(next_step(ConnectionEvent::ClientMessage), ConnectionStep::Continue);
    for e in [
        ConnectionEvent::ChannelClosed,
        ConnectionEvent::SendFailed,
        ConnectionEvent::ClientClosed,
        ConnectionEvent::ClientError,
        ConnectionEvent::ClientGone,
    ] {
        assert_eq!(next_step(e), ConnectionStep::Close);
    }
}

#[test]
fn rest_listens_everywhere() {
    assert_eq!(ViperRest::address(3000), "0.0.0.0:3000");
    assert_eq!(ViperRest::address(0), "0.0.0.0:0");
    assert_eq!(ViperRest::address(65535), "0.0.0.0:65535");
}

#[test]
fn rpc_calls_are_not_offered() {
    let s = ViperIntelligenceEngine;
    for r in [
        s.stream_global_movement(),
        s.stream_tactical_alerts(),
        s.execute_tactical_scan(),
        s.get_vulnerability_report(),
        s.resolve_identity_link(),
    ] {
        let e = r.unwrap_err();
        assert_eq!(e.code, RpcCode::Unimplemented);
        assert_eq!(e.message, "Not yet implemented");
    }
}

#[test]
fn orbital_groups_and_keys() {
    assert_eq!(Groups::ACTIVE.as_str(), "active");
    assert_eq!(Groups::STATIONS.as_str(), "stations");
    assert_eq!(Groups::GNSS.as_str(), "gnss");
    assert_eq!(Groups::STARLINK.as_str(), "starlink");
    assert_eq!(redis_key(25544), "sat:gp:25544");
    let config = AppConfig {
        debug_level: LogLevel::OFF,
        build_version: "1".into(),
        api_keys: ApiKeys {
            adsb_exchange: String::new(),
            ais_stream: String::new(),
            n2yo: String::new(),
            wigle_net_key: String::new(),
            wigle_net_name: String::new(),
            open_cell_id: String::new(),
            shodan: String::new(),
            nasa_firms: String::new(),
        },
        endpoints: ServiceEndpoints {
            celestrak_gp: "https://celestrak.org/NORAD/elements/gp.php".into(),
            nasa_firms: String::new(),
            overpass_api: String::new(),
            redis: String::new(),
            airplanes_live: String::new(),
            ais_stream: String::new(),
        },
    };
    assert_eq!(
        sweep_url(&config, Groups::STARLINK),
        "https://celestrak.org/NORAD/elements/gp.php?GROUP=starlink&FORMAT=JSON"
    );
}

#[test]
fn different_satellites_get_different_keys() {
    assert_ne!(redis_key(1), redis_key(10));
    assert_eq!(redis_key(0), "sat:gp:0");
    assert_eq!(redis_key(u32::MAX), "sat:gp:4294967295");
}
