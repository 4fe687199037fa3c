//! Configuration of the SDK.

use std::time::Duration;
use vstd::prelude::*;

use crate::clock::duration_nanos;
use crate::error::{Result, SdkError};
use crate::string_map::StringMap;
use crate::text::same_text;

verus! {

/// What `Duration::from_secs` makes of a number of seconds.
pub uninterp spec fn duration_of_secs(secs: u64) -> Duration;

/// What `Duration::from_millis` makes of a number of milliseconds.
pub uninterp spec fn duration_of_millis(millis: u64) -> Duration;

/// `Duration::from_secs`: a duration of `secs` whole seconds.
#[verifier::external_body]
pub(crate) fn secs_duration(secs: u64) -> (d: Duration)
    ensures
        d == duration_of_secs(secs),
        duration_nanos(d) == secs * 1_000_000_000,
{
    Duration::from_secs(secs)
}

/// `Duration::from_millis`: a duration of `millis` milliseconds.
#[verifier::external_body]
fn millis_duration(millis: u64) -> (d: Duration)
    ensures
        d == duration_of_millis(millis),
        duration_nanos(d) == millis * 1_000_000,
{
    Duration::from_millis(millis)
}

// Defaults of the configuration files.

/// Default request timeout, in seconds.
pub fn default_timeout() -> (v: u64)
    ensures
        v == 30,
{
    30
}

/// Default connection timeout, in seconds.
pub fn default_connect_timeout() -> (v: u64)
    ensures
        v == 10,
{
    10
}

/// Default maximum number of redirects.
pub fn default_max_redirects() -> (v: usize)
    ensures
        v == 5,
{
    5
}

/// Default keep-alive timeout, in seconds.
pub fn default_keepalive() -> (v: u64)
    ensures
        v == 60,
{
    60
}

/// Default of the flags that are on unless configured off.
pub fn default_true() -> (v: bool)
    ensures
        v,
{
    true
}

/// Default maximum number of attempts.
pub fn default_max_retries() -> (v: u32)
    ensures
        v == 3,
{
    3
}

/// Default initial backoff, in milliseconds.
pub fn default_initial_backoff() -> (v: u64)
    ensures
        v == 100,
{
    100
}

/// Default maximum backoff, in milliseconds.
pub fn default_max_backoff() -> (v: u64)
    ensures
        v == 30000,
{
    30000
}

/// Bit pattern of the `f64` 2.0, the default backoff multiplier.
pub fn default_multiplier_bits() -> (v: u64)
    ensures
        v == 0x4000_0000_0000_0000,
{
    0x4000_0000_0000_0000
}

/// Default maximum number of cache entries.
pub fn default_cache_size() -> (v: usize)
    ensures
        v == 1000,
{
    1000
}

/// Default time to live of cache entries, in seconds.
pub fn default_cache_ttl() -> (v: u64)
    ensures
        v == 3600,
{
    3600
}

/// Default requests per second.
pub fn default_rps() -> (v: u32)
    ensures
        v == 100,
{
    100
}

/// Default burst size.
pub fn default_burst() -> (v: u32)
    ensures
        v == 200,
{
    200
}

/// Default maximum number of database connections.
pub fn default_pool_size() -> (v: u32)
    ensures
        v == 10,
{
    10
}

/// Default idle timeout of database connections, in seconds.
pub fn default_idle_timeout() -> (v: u64)
    ensures
        v == 300,
{
    300
}

/// HTTP client configuration
#[derive(Debug, Clone)]
pub struct HttpConfig {
    /// Request timeout in seconds
    pub timeout_secs: u64,
    /// Connection timeout in seconds
    pub connect_timeout_secs: u64,
    /// Maximum redirects
    pub max_redirects: usize,
    /// Keep-alive timeout in seconds
    pub keepalive_secs: u64,
    /// TCP nodelay
    pub tcp_nodelay: bool,
    /// Use HTTP/2
    pub http2: bool,
}

impl Default for HttpConfig {
    fn default() -> (c: Self)
        ensures
            c.timeout_secs == 30,
            c.connect_timeout_secs == 10,
            c.max_redirects == 5,
            c.keepalive_secs == 60,
            c.tcp_nodelay,
            c.http2,
    {
        Self {
            timeout_secs: default_timeout(),
            connect_timeout_secs: default_connect_timeout(),
            max_redirects: default_max_redirects(),
            keepalive_secs: default_keepalive(),
            tcp_nodelay: default_true(),
            http2: default_true(),
        }
    }
}

/// Retry configuration
#[derive(Debug, Clone)]
pub struct RetryConfig {
    /// Maximum retry attempts
    pub max_attempts: u32,
    /// Initial backoff in milliseconds
    pub initial_backoff_ms: u64,
    /// Maximum backoff in milliseconds
    pub max_backoff_ms: u64,
    /// Backoff multiplier, as the bit pattern of an `f64` (`f64::to_bits`):
    /// the library carries it and never computes with it.
    pub multiplier_bits: u64,
    /// Add jitter to backoff
    pub jitter: bool,
}

impl Default for RetryConfig {
    fn default() -> (c: Self)
        ensures
            c.max_attempts == 3,
            c.initial_backoff_ms == 100,
            c.max_backoff_ms == 30000,
            c.multiplier_bits == 0x4000_0000_0000_0000,
            c.jitter,
    {
        Self {
            max_attempts: default_max_retries(),
            initial_backoff_ms: default_initial_backoff(),
            max_backoff_ms: default_max_backoff(),
            multiplier_bits: default_multiplier_bits(),
            jitter: default_true(),
        }
    }
}

/// Cache configuration
#[derive(Debug, Clone)]
pub struct CacheConfig {
    /// Enable caching
    pub enabled: bool,
    /// Maximum cache entries
    pub max_entries: usize,
    /// TTL in seconds
    pub ttl_secs: u64,
}

impl Default for CacheConfig {
    fn default() -> (c: Self)
        ensures
            c.enabled,
            c.max_entries == 1000,
            c.ttl_secs == 3600,
    {
        Self { enabled: default_true(), max_entries: default_cache_size(), ttl_secs: default_cache_ttl() }
    }
}

/// Rate limiting configuration
#[derive(Debug, Clone)]
pub struct RateLimitConfig {
    /// Enable rate limiting
    pub enabled: bool,
    /// Requests per second
    pub requests_per_second: u32,
    /// Burst size
    pub burst_size: u32,
}

impl Default for RateLimitConfig {
    fn default() -> (c: Self)
        ensures
            c.enabled,
            c.requests_per_second == 100,
            c.burst_size == 200,
    {
        Self { enabled: default_true(), requests_per_second: default_rps(), burst_size: default_burst() }
    }
}

/// Database configuration
#[derive(Debug, Clone)]
pub struct DatabaseConfig {
    /// Database URL
    pub url: String,
    /// Maximum connections
    pub max_connections: u32,
    /// Connection timeout in seconds
    pub connection_timeout_secs: u64,
    /// Idle timeout in seconds
    pub idle_timeout_secs: u64,
}

impl Default for DatabaseConfig {
    fn default() -> (c: Self)
        ensures
            c.url@ == "sqlite://database.db"@,
            c.max_connections == 10,
            c.connection_timeout_secs == 30,
            c.idle_timeout_secs == 300,
    {
        Self {
            url: "sqlite://database.db".to_owned(),
            max_connections: default_pool_size(),
            connection_timeout_secs: default_timeout(),
            idle_timeout_secs: default_idle_timeout(),
        }
    }
}

/// Main SDK configuration
pub struct Config {
    /// Base URL for API endpoints
    pub base_url: String,
    /// API key for authentication
    pub api_key: Option<String>,
    /// HTTP client configuration
    pub http: HttpConfig,
    /// Retry configuration
    pub retry: RetryConfig,
    /// Cache configuration
    pub cache: CacheConfig,
    /// Rate limiting configuration
    pub rate_limit: RateLimitConfig,
    /// Database configuration
    pub database: Option<DatabaseConfig>,
    /// Custom headers
    pub custom_headers: StringMap<String>,
    /// Environment
    pub environment: String,
    /// Debug mode
    pub debug: bool,
}

/// The characters of an optional string.
pub open spec fn opt_text(s: Option<String>) -> Option<Seq<char>> {
    match s {
        Some(t) => Some(t@),
        None => None,
    }
}

impl Config {
    /// The configuration every constructor starts from, for the given base
    /// URL: no API key, default HTTP, retry, cache and rate limit settings,
    /// no database, no custom header, the `production` environment, no debug.
    pub open spec fn is_default_for(&self, base_url: Seq<char>) -> bool {
        &&& self.base_url@ == base_url
        &&& self.api_key is None
        &&& self.http.timeout_secs == 30 && self.http.connect_timeout_secs == 10
        &&& self.http.max_redirects == 5 && self.http.keepalive_secs == 60
        &&& self.http.tcp_nodelay && self.http.http2
        &&& self.retry.max_attempts == 3 && self.retry.initial_backoff_ms == 100
        &&& self.retry.max_backoff_ms == 30000
        &&& self.retry.multiplier_bits == 0x4000_0000_0000_0000 && self.retry.jitter
        &&& self.cache.enabled && self.cache.max_entries == 1000 && self.cache.ttl_secs == 3600
        &&& self.rate_limit.enabled && self.rate_limit.requests_per_second == 100
        &&& self.rate_limit.burst_size == 200
        &&& self.database is None
        &&& self.custom_headers@ == Map::<Seq<char>, String>::empty()
        &&& self.environment@ == "production"@
        &&& !self.debug
    }

    /// Create a new configuration from base URL
    pub fn new(base_url: &str) -> (c: Self)
        ensures
            c.is_default_for(base_url@),
    {
        Self {
            base_url: base_url.to_owned(),
            api_key: None,
            http: HttpConfig::default(),
            retry: RetryConfig::default(),
            cache: CacheConfig::default(),
            rate_limit: RateLimitConfig::default(),
            database: None,
            custom_headers: StringMap::new(),
            environment: "production".to_owned(),
            debug: false,
        }
    }

    /// The configuration that the environment variables `SDK_BASE_URL`,
    /// `SDK_API_KEY`, `SDK_DEBUG` and `SDK_ENV` (given as they were found, if
    /// at all) describe: the base URL is required; debug is on exactly when
    /// `SDK_DEBUG` is `true`; the environment is `production` unless given.
    pub fn from_env_vars(
        base_url: Option<String>,
        api_key: Option<String>,
        debug: Option<String>,
        environment: Option<String>,
    ) -> (r: Result<Self>)
        ensures
            base_url is None <==> r is Err,
            r matches Err(e) ==> e matches SdkError::ConfigError(m) && m@
                == "SDK_BASE_URL environment variable not set"@,
            r matches Ok(c) ==> {
                &&& c.base_url@ == base_url->0@
                &&& opt_text(c.api_key) == opt_text(api_key)
                &&& c.debug == (debug matches Some(d) && d@ == "true"@)
                &&& c.environment@ == (match environment {
                    Some(e) => e@,
                    None => "production"@,
                })
                &&& c.http.timeout_secs == 30 && c.retry.max_attempts == 3
                &&& c.cache.max_entries == 1000 && c.rate_limit.requests_per_second == 100
                &&& c.database is None
                &&& c.custom_headers@ == Map::<Seq<char>, String>::empty()
            },
    {
        let base_url = match base_url {
            Some(u) => u,
            None => {
                return Err(SdkError::config("SDK_BASE_URL environment variable not set"));
            },
        };
        let debug = match debug {
            Some(v) => same_text(v.as_str(), "true"),
            None => false,
        };
        let environment = match environment {
            Some(e) => e,
            None => "production".to_owned(),
        };
        let mut c = Self::default();
        c.base_url = base_url;
        c.api_key = api_key;
        c.debug = debug;
        c.environment = environment;
        Ok(c)
    }

    /// Set API key
    pub fn with_api_key(self, key: &str) -> (c: Self)
        ensures
            c.http == self.http,
            c.retry == self.retry,
            c.cache == self.cache,
            c.rate_limit == self.rate_limit,
            c.database == self.database,
            opt_text(c.api_key) == Some(key@),
            c.base_url == self.base_url,
            c.custom_headers@ == self.custom_headers@,
            c.debug == self.debug,
            c.environment == self.environment,
    {
        Self { api_key: Some(key.to_owned()), ..self }
    }

    /// Set custom header (replacing any earlier value under the same name)
    pub fn with_header(self, key: &str, value: &str) -> (c: Self)
        ensures
            c.http == self.http,
            c.retry == self.retry,
            c.cache == self.cache,
            c.rate_limit == self.rate_limit,
            c.database == self.database,
            c.custom_headers@.dom() == self.custom_headers@.dom().insert(key@),
            c.custom_headers@[key@]@ == value@,
            forall|k: Seq<char>| k != key@ && #[trigger] self.custom_headers@.contains_key(k)
                ==> c.custom_headers@[k] == self.custom_headers@[k],
            c.base_url == self.base_url,
            opt_text(c.api_key) == opt_text(self.api_key),
            c.debug == self.debug,
            c.environment == self.environment,
    {
        let mut headers = self.custom_headers;
        headers.insert(key.to_owned(), value.to_owned());
        Self { custom_headers: headers, ..self }
    }

    /// Enable debug mode
    pub fn with_debug(self, debug: bool) -> (c: Self)
        ensures
            c.http == self.http,
            c.retry == self.retry,
            c.cache == self.cache,
            c.rate_limit == self.rate_limit,
            c.database == self.database,
            c.debug == debug,
            c.base_url == self.base_url,
            opt_text(c.api_key) == opt_text(self.api_key),
            c.custom_headers@ == self.custom_headers@,
            c.environment == self.environment,
    {
        Self { debug, ..self }
    }

    /// Get HTTP timeout as Duration
    pub fn http_timeout(&self) -> (d: Duration)
        ensures
            d == duration_of_secs(self.http.timeout_secs),
            duration_nanos(d) == self.http.timeout_secs * 1_000_000_000,
    {
        secs_duration(self.http.timeout_secs)
    }

    /// Get retry initial backoff as Duration
    pub fn retry_initial_backoff(&self) -> (d: Duration)
        ensures
            d == duration_of_millis(self.retry.initial_backoff_ms),
            duration_nanos(d) == self.retry.initial_backoff_ms * 1_000_000,
    {
        millis_duration(self.retry.initial_backoff_ms)
    }

    /// Get cache TTL as Duration
    pub fn cache_ttl(&self) -> (d: Duration)
        ensures
            d == duration_of_secs(self.cache.ttl_secs),
            duration_nanos(d) == self.cache.ttl_secs * 1_000_000_000,
    {
        secs_duration(self.cache.ttl_secs)
    }
}

impl Default for Config {
    fn default() -> (c: Self)
        ensures
            c.is_default_for("https://api.example.com"@),
    {
        Self::new("https://api.example.com")
    }
}

} // verus!
