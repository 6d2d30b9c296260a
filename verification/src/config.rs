//! The service's configuration, and what is derived from it: the Redis URL scheme, the
//! log filter and the HTTP user agent.

use crate::text::{has_prefix, starts_with};
use vstd::prelude::*;

verus! {

/// How long the shared HTTP client may take to connect, in seconds.
pub const HTTP_CONNECT_TIMEOUT_SECS: u64 = 10;

/// How long a request of the shared HTTP client may take, in seconds.
pub const HTTP_TIMEOUT_SECS: u64 = 30;

/// The TCP keepalive interval of the shared HTTP client, in seconds.
pub const HTTP_KEEPALIVE_SECS: u64 = 60;

/// How long connecting to Redis may take, in seconds.
pub const REDIS_CONNECT_TIMEOUT_SECS: u64 = 5;

/// How much the service logs.
#[allow(non_camel_case_types, clippy::upper_case_acronyms)]
#[derive(Clone, Copy, Debug, PartialEq, Eq, Structural)]
pub enum LogLevel {
    TRACE,
    DEBUG,
    INFO,
    WARN,
    ERROR,
    OFF,
}

/// The lower-case name of a level, as it is written in a log filter.
pub open spec fn level_name(level: LogLevel) -> Seq<char> {
    match level {
        LogLevel::TRACE => "trace"@,
        LogLevel::DEBUG => "debug"@,
        LogLevel::INFO => "info"@,
        LogLevel::WARN => "warn"@,
        LogLevel::ERROR => "error"@,
        LogLevel::OFF => "off"@,
    }
}

impl LogLevel {
    /// The lower-case name of the level.
    pub fn as_str(&self) -> (name: &'static str)
        ensures
            name@ == level_name(*self),
    {
        match self {
            LogLevel::TRACE => "trace",
            LogLevel::DEBUG => "debug",
            LogLevel::INFO => "info",
            LogLevel::WARN => "warn",
            LogLevel::ERROR => "error",
            LogLevel::OFF => "off",
        }
    }
}

/// Keys for the outside services.
#[derive(Clone, Debug)]
pub struct ApiKeys {
    pub adsb_exchange: String,
    pub ais_stream: String,
    pub n2yo: String,
    pub wigle_net_key: String,
    pub wigle_net_name: String,
    pub open_cell_id: String,
    pub shodan: String,
    pub nasa_firms: String,
}

/// Base addresses of the outside services.
#[derive(Clone, Debug)]
pub struct ServiceEndpoints {
    pub celestrak_gp: String,
    pub nasa_firms: String,
    pub overpass_api: String,
    pub redis: String,
    pub airplanes_live: String,
    pub ais_stream: String,
}

/// The whole configuration.
#[derive(Clone, Debug)]
pub struct AppConfig {
    pub debug_level: LogLevel,
    pub build_version: String,
    pub api_keys: ApiKeys,
    pub endpoints: ServiceEndpoints,
}

/// A Redis address with an `https://` or `http://` scheme given the `redis://` scheme
/// instead; any other address as it is.
pub open spec fn redis_url(url: Seq<char>) -> Seq<char> {
    if has_prefix(url, "https://"@) {
        "redis://"@ + url.subrange("https://"@.len() as int, url.len() as int)
    } else if has_prefix(url, "http://"@) {
        "redis://"@ + url.subrange("http://"@.len() as int, url.len() as int)
    } else {
        url
    }
}

/// Gives an `https://` or `http://` Redis address the `redis://` scheme.
pub fn normalize_redis_url(url: &str) -> (r: String)
    ensures
        r@ == redis_url(url@),
{
    let https = "https://";
    let http = "http://";
    let n = url.unicode_len();
    if starts_with(url, https) {
        let rest = url.substring_char(https.unicode_len(), n);
        String::from_str("redis://").concat(rest)
    } else if starts_with(url, http) {
        let rest = url.substring_char(http.unicode_len(), n);
        String::from_str("redis://").concat(rest)
    } else {
        String::from_str(url)
    }
}

/// The configuration as the service uses it: as read, with the Redis address given the
/// `redis://` scheme.
pub fn prepare_config(config: AppConfig) -> (r: AppConfig)
    ensures
        r.endpoints.redis@ == redis_url(config.endpoints.redis@),
        r.endpoints.celestrak_gp == config.endpoints.celestrak_gp,
        r.endpoints.nasa_firms == config.endpoints.nasa_firms,
        r.endpoints.overpass_api == config.endpoints.overpass_api,
        r.endpoints.airplanes_live == config.endpoints.airplanes_live,
        r.endpoints.ais_stream == config.endpoints.ais_stream,
        r.debug_level == config.debug_level,
        r.build_version == config.build_version,
        r.api_keys == config.api_keys,
{
    let mut config = config;
    let redis = normalize_redis_url(config.endpoints.redis.as_str());
    config.endpoints.redis = redis;
    config
}

/// The log filter in force: the one given in the environment if there is one, else the
/// name of the configured level.
pub open spec fn chosen_filter(from_env: Option<Seq<char>>, level: LogLevel) -> Seq<char> {
    match from_env {
        Some(f) => f,
        None => level_name(level),
    }
}

/// Returns the log filter in force.
pub fn log_filter(from_env: Option<String>, level: LogLevel) -> (r: String)
    ensures
        r@ == chosen_filter(
            match from_env {
                Some(f) => Some(f@),
                None => None,
            },
            level,
        ),
{
    match from_env {
        Some(f) => f,
        None => String::from_str(level.as_str()),
    }
}

/// Returns whether a log filter turns logging on: every filter but `off` does.
pub fn logging_enabled(filter: &str) -> (r: bool)
    ensures
        r == (filter@ != "off"@),
{
    !crate::text::same_text(filter, "off")
}

/// A character that may stand in an HTTP header value: each byte of its UTF-8 encoding is
/// visible ASCII, a space, a tab, or a byte of a multi-byte character.
pub open spec fn header_char_ok(c: char) -> bool {
    (c as u32 >= 32 && c as u32 != 127) || c as u32 == 9
}

/// The user agent the service sends: `VIPER-Engine/` and the build version.
pub open spec fn user_agent_text(build_version: Seq<char>) -> Seq<char> {
    "VIPER-Engine/"@ + build_version
}

/// Why an HTTP client cannot be set up.
#[derive(Clone, Copy, Debug, PartialEq, Eq, Structural)]
pub enum HttpSetupError {
    /// The user agent holds a character that a header value may not hold.
    InvalidUserAgent,
}

/// Returns the user agent for HTTP requests, or the error when it cannot be a header value.
pub fn user_agent(config: &AppConfig) -> (r: Result<String, HttpSetupError>)
    ensures
        r is Ok <==> forall|i: int|
            0 <= i < user_agent_text(config.build_version@).len() ==> header_char_ok(
                #[trigger] user_agent_text(config.build_version@)[i],
            ),
        r matches Ok(ua) ==> ua@ == user_agent_text(config.build_version@),
{
    let ua = String::from_str("VIPER-Engine/").concat(config.build_version.as_str());
    let n = ua.as_str().unicode_len();
    let mut i: usize = 0;
    while i < n
        invariant
            i <= n,
            n == ua@.len(),
            ua@ == user_agent_text(config.build_version@),
            forall|k: int| 0 <= k < i ==> header_char_ok(#[trigger] ua@[k]),
        decreases n - i,
    {
        let c = ua.as_str().get_char(i);
        let code = c as u32;
        if !((code >= 32 && code != 127) || code == 9) {
            return Err(HttpSetupError::InvalidUserAgent);
        }
        i = i + 1;
    }
    Ok(ua)
}

/// Normalizing the Redis address twice gives what normalizing once gives.
pub proof fn law_redis_url_idempotent(url: Seq<char>)
    ensures
        redis_url(redis_url(url)) == redis_url(url),
{
    reveal_strlit("https://");
    reveal_strlit("http://");
    reveal_strlit("redis://");
    let r = redis_url(url);
    if has_prefix(url, "https://"@) || has_prefix(url, "http://"@) {
        assert(r[0] == 'r');
        assert(!has_prefix(r, "https://"@)) by {
            if has_prefix(r, "https://"@) {
                assert(r.subrange(0, 8)[0] == 'h');
            }
        }
        assert(!has_prefix(r, "http://"@)) by {
            if has_prefix(r, "http://"@) {
                assert(r.subrange(0, 7)[0] == 'h');
            }
        }
    }
}

/// A normalized Redis address never keeps an `http://` or `https://` scheme.
pub proof fn law_redis_url_has_no_http_scheme(url: Seq<char>)
    ensures
        !has_prefix(redis_url(url), "https://"@),
        !has_prefix(redis_url(url), "http://"@),
{
    law_redis_url_idempotent(url);
    reveal_strlit("https://");
    reveal_strlit("http://");
    reveal_strlit("redis://");
    let r = redis_url(url);
    if has_prefix(url, "https://"@) || has_prefix(url, "http://"@) {
        assert(r[0] == 'r');
        if has_prefix(r, "https://"@) {
            assert(r.subrange(0, 8)[0] == 'h');
        }
        if has_prefix(r, "http://"@) {
            assert(r.subrange(0, 7)[0] == 'h');
        }
    }
}

} // verus!
