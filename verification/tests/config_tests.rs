use viper::config::{
    log_filter, logging_enabled, normalize_redis_url, prepare_config, user_agent, ApiKeys,
    AppConfig, HttpSetupError, LogLevel, ServiceEndpoints,
};

fn config(redis: &str, version: &str) -> AppConfig {
    AppConfig {
        debug_level: LogLevel::INFO,
        build_version: version.to_string(),
        api_keys: ApiKeys {
            adsb_exchange: "a".into(),
            ais_stream: "ais-key".into(),
            n2yo: "n".into(),
            wigle_net_key: "w".into(),
            wigle_net_name: "wn".into(),
            open_cell_id: "o".into(),
            shodan: "s".into(),
            nasa_firms: "firms-key".into(),
        },
        endpoints: ServiceEndpoints {
            celestrak_gp: "https://celestrak.org/NORAD/elements/gp.php".into(),
            nasa_firms: "https://firms.modaps.eosdis.nasa.gov".into(),
            overpass_api: "https://overpass".into(),
            redis: redis.into(),
            airplanes_live: "https://api.airplanes.live/v2".into(),
            ais_stream: "stream.aisstream.io/v0/stream".into(),
        },
    }
}

#[test]
fn redis_scheme_is_normalized() {
    assert_eq!(normalize_redis_url("https://cache:6379"), "redis://cache:6379");
    assert_eq!(normalize_redis_url("http://cache:6379/0"), "redis://cache:6379/0");
    assert_eq!(normalize_redis_url("redis://cache"), "redis://cache");
    assert_eq!(normalize_redis_url("cache:6379"), "cache:6379");
    assert_eq!(normalize_redis_url("x-https://c"), "x-https://c");
}

#[test]
fn normalizing_twice_changes_nothing() {
    for u in ["https://a", "http://b", "redis://c", "d"] {
        let once = normalize_redis_url(u);
        assert_eq!(normalize_redis_url(&once), once);
    }
}

#[test]
fn prepared_config_keeps_the_rest() {
    let c = prepare_config(config("http://redis-host:6379", "1.2.3"));
    assert_eq!(c.endpoints.redis, "redis://redis-host:6379");
    assert_eq!(c.build_version, "1.2.3");
    assert_eq!(c.api_keys.ais_stream, "ais-key");
    assert_eq!(c.endpoints.nasa_firms, "https://firms.modaps.eosdis.nasa.gov");
}

#[test]
fn level_names_are_lower_case() {
    assert_eq!(LogLevel::TRACE.as_str(), "trace");
    assert_eq!(LogLevel::DEBUG.as_str(), "debug");
    assert_eq!(LogLevel::INFO.as_str(), "info");
    assert_eq!(LogLevel::WARN.as_str(), "warn");
    assert_eq!(LogLevel::ERROR.as_str(), "error");
    assert_eq!(LogLevel::OFF.as_str(), "off");
}

#[test]
fn environment_filter_wins() {
    assert_eq!(log_filter(Some("viper=trace".into()), LogLevel::OFF), "viper=trace");
    assert_eq!(log_filter(None, LogLevel::WARN), "warn");
    assert!(!logging_enabled("off"));
    assert!(logging_enabled("info"));
    assert!(logging_enabled("Off"));
}

#[test]
fn user_agent_names_the_version() {
    assert_eq!(user_agent(&config("r", "0.4.1")), Ok("VIPER-Engine/0.4.1".to_string()));
    assert_eq!(user_agent(&config("r", "0.4\t1 é")), Ok("VIPER-Engine/0.4\t1 é".to_string()));
    assert_eq!(user_agent(&config("r", "0.4\n")), Err(HttpSetupError::InvalidUserAgent));
    assert_eq!(user_agent(&config("r", "0.4\u{7f}")), Err(HttpSetupError::InvalidUserAgent));
}
