//! The SDK client: how a configuration becomes a client, and the decisions
//! that each request makes around its HTTP exchange (admission by the rate
//! limiter, the request context and its headers, the reading of the status,
//! the cache of GET responses).

use std::time::Duration;
use vstd::prelude::*;

use crate::cache::{bytes_of, max_ttl_secs, Cache};
use crate::clock::{epoch_nanos, utc_now_nanos};
use crate::config::{duration_of_secs, secs_duration, Config};
use crate::error::{Result, SdkError};
use crate::middleware::{attribute_set, AuthMiddleware, RequestContext, RequestMetadata};
use crate::rate_limit::{window_admit, SlidingWindowRateLimiter};
use crate::string_map::StringMap;
use crate::text::{append, decimal, has_prefix};
use crate::utils::{random_uuid, RetryHelper, RetryStep};
use crate::validation::{EmailValidator, Validator};

verus! {

/// A `reqwest::Client`, held opaquely (the requests themselves are sent
/// outside this library).
#[verifier::external_body]
pub struct ReqwestHandle {
    pub client: reqwest::Client,
}

/// The HTTP client that sends the requests, with the request timeout and
/// the connect timeout it was built with.
pub struct HttpClient {
    pub handle: ReqwestHandle,
    pub timeout: Duration,
    pub connect_timeout: Duration,
}

/// `reqwest::Client::builder()` given the request timeout and the connect
/// timeout, then `build()`; a failure comes back as the error's message.
/// A client built is kept with the two timeouts it was given. Whether
/// building succeeds depends on the machine (its TLS setup), so nothing is
/// stated of that.
#[verifier::external_body]
fn build_http_client(timeout: Duration, connect_timeout: Duration) -> (r: std::result::Result<
    HttpClient,
    String,
>)
    ensures
        r matches Ok(h) ==> h.timeout == timeout && h.connect_timeout == connect_timeout,
{
    match reqwest::Client::builder().timeout(timeout).connect_timeout(connect_timeout).build() {
        Ok(c) => Ok(HttpClient { handle: ReqwestHandle { client: c }, timeout, connect_timeout }),
        Err(e) => Err(e.to_string()),
    }
}

/// What `reqwest::StatusCode::from_u16(code)` displays as: the code and its
/// reason phrase.
pub uninterp spec fn status_display(code: u16) -> Seq<char>;

/// `reqwest::StatusCode::from_u16(code)`, displayed (`to_string`): the code
/// in decimal, a space and the reason phrase. The code must be one that
/// `from_u16` accepts, 100 to 999.
#[verifier::external_body]
fn status_text(code: u16) -> (s: String)
    requires
        100 <= code <= 999,
    ensures
        s@ == status_display(code),
        has_prefix(s@, decimal(code as nat) + " "@),
{
    reqwest::StatusCode::from_u16(code).unwrap().to_string()
}

/// Whether an HTTP status means success (200 to 299).
pub open spec fn status_is_success(code: u16) -> bool {
    200 <= code <= 299
}

/// An `Http` error raised because building the HTTP client failed.
pub open spec fn build_failure(e: SdkError) -> bool {
    exists|m: Seq<char>| #[trigger] http_error_with(e, "Failed to create HTTP client: "@ + m)
}

/// An `Http` error with the given message.
pub open spec fn http_error_with(e: SdkError, msg: Seq<char>) -> bool {
    e matches SdkError::HttpError(m) && m@ == msg
}

/// The key and value texts of header entries.
pub open spec fn header_texts(e: Seq<(String, String)>) -> Seq<(Seq<char>, Seq<char>)> {
    Seq::new(e.len(), |i: int| (e[i].0@, e[i].1@))
}

/// What to do after one attempt of sending a request.
#[derive(Debug)]
pub enum AttemptOutcome {
    /// The response is a success: hand it over.
    Deliver,
    /// Wait for the backoff of attempt `attempt`, then send again.
    Retry { attempt: u32 },
    /// Give up with this error.
    Fail(SdkError),
}

/// Whether `d` is what follows a failed attempt number `attempt` (of at
/// most `max_attempts`) whose `Http` error carries the message `msg`: such an
/// error is retried while attempts remain; otherwise the request fails with
/// `RetryExhausted`, counting the attempts and quoting the error.
pub open spec fn after_failed_attempt(attempt: u32, max_attempts: u32, msg: Seq<char>, d: AttemptOutcome) -> bool {
    if attempt + 1 < max_attempts {
        d == (AttemptOutcome::Retry { attempt: (attempt + 1) as u32 })
    } else {
        d matches AttemptOutcome::Fail(SdkError::RetryExhausted { attempts, reason }) && attempts
            == attempt + 1 && reason@ == "HTTP request failed: "@ + msg
    }
}

/// Main SDK client
pub struct Client {
    config: Config,
    http_client: HttpClient,
    cache: Cache,
    rate_limiter: SlidingWindowRateLimiter,
    auth: Option<AuthMiddleware>,
}

impl Client {
    /// The configuration the client was made from.
    pub closed spec fn settings(&self) -> Config {
        self.config
    }

    /// The cache of GET responses.
    pub closed spec fn response_cache(&self) -> Cache {
        self.cache
    }

    /// The HTTP client that sends the requests.
    pub closed spec fn transport(&self) -> HttpClient {
        self.http_client
    }

    /// The limiter that admits requests.
    pub closed spec fn limiter(&self) -> SlidingWindowRateLimiter {
        self.rate_limiter
    }

    /// The API key the authentication middleware sends, if there is one.
    pub closed spec fn bearer_key(&self) -> Option<Seq<char>> {
        match self.auth {
            Some(a) => Some(a.api_key()),
            None => None,
        }
    }

    /// Whether the time to live of a configuration's cache is one the cache
    /// accepts (`chrono::Duration::seconds` panics beyond it).
    pub open spec fn cache_ttl_supported(config: Config) -> bool {
        -max_ttl_secs() <= (config.cache.ttl_secs as i64) <= max_ttl_secs()
    }

    /// Whether `c` is the client that `config` describes: it keeps the
    /// configuration; its cache is empty, sized and timed as configured; its
    /// limiter admits the configured requests per second in windows of one
    /// second and has seen no request; it authenticates with the configured
    /// API key, if any.
    pub open spec fn made_from(c: Client, config: Config) -> bool {
        &&& c.settings() == config
        &&& c.response_cache().entries() == Map::<Seq<char>, (Seq<u8>, i128)>::empty()
        &&& c.response_cache().max_entries() == config.cache.max_entries
        &&& c.response_cache().ttl_nanos() == (config.cache.ttl_secs as i64) as int * 1_000_000_000
        &&& c.limiter().max_requests() == config.rate_limit.requests_per_second
        &&& c.limiter().window_nanos() == 1_000_000_000
        &&& c.limiter().log() == Map::<Seq<char>, Seq<u128>>::empty()
        &&& c.bearer_key() == match config.api_key {
            Some(k) => Some(k@),
            None => None::<Seq<char>>,
        }
    }

    /// Create a new client with base URL and the default configuration.
    pub fn new(base_url: &str) -> (r: Result<Self>)
        ensures
            r matches Ok(c) ==> c.settings().is_default_for(base_url@) && Self::made_from(
                c,
                c.settings(),
            ),
            r matches Err(e) ==> e is HttpError && build_failure(e),
    {
        let config = Config::new(base_url);
        Self::with_config(config)
    }

    /// Create a new client with configuration: the HTTP client gets the
    /// configured request and connect timeouts; a failure to build it is an
    /// `Http` error.
    pub fn with_config(config: Config) -> (r: Result<Self>)
        requires
            Self::cache_ttl_supported(config),
        ensures
            r matches Ok(c) ==> Self::made_from(c, config),
            r matches Ok(c) ==> c.transport().timeout == duration_of_secs(config.http.timeout_secs)
                && c.transport().connect_timeout == duration_of_secs(
                config.http.connect_timeout_secs,
            ),
            r matches Err(e) ==> e is HttpError && build_failure(e),
    {
        let timeout = config.http_timeout();
        let connect_timeout = secs_duration(config.http.connect_timeout_secs);
        let built = build_http_client(timeout, connect_timeout);
        let ghost b = built;
        let r = Self::assemble(config, built);
        proof {
            if let Err(m) = b {
                assert(r matches Err(e) && http_error_with(e, "Failed to create HTTP client: "@ + m@));
            }
        }
        r
    }

    /// The client made of `config` and the outcome of building its HTTP
    /// client: a failure message `m` gives the `Http` error
    /// `Failed to create HTTP client: m`.
    pub fn assemble(config: Config, built: std::result::Result<HttpClient, String>) -> (r:
        Result<Self>)
        requires
            Self::cache_ttl_supported(config),
        ensures
            built is Ok <==> r is Ok,
            r matches Ok(c) ==> Self::made_from(c, config),
            built matches Ok(h) ==> r matches Ok(c) && c.transport() == h,
            built matches Err(m) ==> r matches Err(e) && http_error_with(
                e,
                "Failed to create HTTP client: "@ + m@,
            ),
    {
        let http_client = match built {
            Ok(c) => c,
            Err(m) => {
                let mut msg = "Failed to create HTTP client: ".to_owned();
                append(&mut msg, m.as_str());
                return Err(SdkError::HttpError(msg));
            },
        };
        let auth = match &config.api_key {
            Some(key) => Some(AuthMiddleware::new(key.clone())),
            None => None,
        };
        let cache = Cache::new(config.cache.max_entries, config.cache.ttl_secs);
        let rate_limiter = SlidingWindowRateLimiter::new(
            config.rate_limit.requests_per_second,
            secs_duration(1),
        );
        Ok(Self { config, http_client, cache, rate_limiter, auth })
    }

    /// Get configuration
    pub fn config(&self) -> (c: &Config)
        ensures
            *c == self.settings(),
    {
        &self.config
    }

    /// Get HTTP client: the one the client was assembled with.
    pub fn http_client(&self) -> (h: &HttpClient)
        ensures
            *h == self.transport(),
    {
        &self.http_client
    }

    /// Get cache
    pub fn cache(&self) -> (c: &Cache)
        ensures
            *c == self.response_cache(),
    {
        &self.cache
    }

    /// Get rate limiter
    pub fn rate_limiter(&self) -> (l: &SlidingWindowRateLimiter)
        ensures
            *l == self.limiter(),
    {
        &self.rate_limiter
    }

    /// The URL of `path` on the configured base URL.
    pub fn url_for(&self, path: &str) -> (u: String)
        ensures
            u@ == self.settings().base_url@ + path@,
    {
        let mut u = self.config.base_url.clone();
        append(&mut u, path);
        u
    }

    /// Admit a request: with rate limiting off every request is admitted and
    /// the limiter is left alone; otherwise the limiter is asked for the
    /// client `default_user`, and a refusal is its `RateLimitExceeded` error.
    pub fn admit_request(&mut self) -> (r: Result<()>)
        ensures
            final(self).settings() == old(self).settings(),
            final(self).response_cache() == old(self).response_cache(),
            final(self).bearer_key() == old(self).bearer_key(),
            final(self).transport() == old(self).transport(),
            final(self).limiter().max_requests() == old(self).limiter().max_requests(),
            final(self).limiter().window_nanos() == old(self).limiter().window_nanos(),
            !old(self).settings().rate_limit.enabled ==> r is Ok && final(self).limiter()
                == old(self).limiter(),
            old(self).settings().rate_limit.enabled ==> final(self).limiter().clock_time() >= old(
                self,
            ).limiter().clock_time(),
            old(self).settings().rate_limit.enabled ==> ({
                let (after, ok) = window_admit(
                    old(self).limiter().times("default_user"@),
                    final(self).limiter().clock_time(),
                    old(self).limiter().window_nanos(),
                    old(self).limiter().max_requests(),
                );
                &&& r is Ok <==> ok
                &&& final(self).limiter().log() == old(self).limiter().log().insert(
                    "default_user"@,
                    after,
                )
            }),
            r matches Err(e) ==> e matches SdkError::RateLimitExceeded(m) && m@
                == old(self).limiter().limit_message(),
    {
        if !self.config.rate_limit.enabled {
            return Ok(());
        }
        self.rate_limiter.allow_request("default_user")
    }

    /// Build a request context for the given path and method: a new random
    /// version-4 request identifier, the current time, the loopback address
    /// as client and `rust-sdk` as user agent, no attributes.
    pub fn build_context(&self, path: &str, method: &str) -> (c: RequestContext)
        ensures
            (c.request_id >> 76u128) & 0xf == 4,
            c.metadata.request_id == c.request_id,
            c.metadata.correlation_id is None,
            c.metadata.user_id is None,
            c.metadata.path@ == path@,
            c.metadata.method@ == method@,
            c.metadata.client_ip@ == "127.0.0.1"@,
            c.metadata.user_agent@ == "rust-sdk"@,
            (c.request_id >> 62u128) & 0x3 == 2,
            exists|secs: i64, subsec: u32|
                subsec < 2_000_000_000 && c.metadata.timestamp == epoch_nanos(secs, subsec),
            c.attributes@ == Map::<Seq<char>, String>::empty(),
            c.attributes.entry_seq().len() == 0,
    {
        let request_id = random_uuid();
        RequestContext {
            request_id,
            metadata: RequestMetadata {
                request_id,
                correlation_id: None,
                user_id: None,
                timestamp: utc_now_nanos(),
                path: path.to_owned(),
                method: method.to_owned(),
                client_ip: "127.0.0.1".to_owned(),
                user_agent: "rust-sdk".to_owned(),
            },
            attributes: StringMap::new(),
        }
    }

    /// Run the client's own request middleware: with an API key, the
    /// `Authorization` attribute becomes `Bearer <key>`; without one the
    /// context is left as it was.
    pub fn apply_request_middleware(&self, context: &mut RequestContext)
        ensures
            final(context).request_id == old(context).request_id,
            self.bearer_key() matches Some(k) ==> attribute_set(
                old(context).attributes@,
                final(context).attributes@,
                "Authorization"@,
                "Bearer "@ + k,
            ),
            self.bearer_key() is None ==> final(context).attributes@ == old(context).attributes@,
            final(context).metadata == old(context).metadata,
    {
        match &self.auth {
            Some(a) => a.on_request(context),
            None => {},
        }
    }

    /// The headers a request carries: the context's attributes, then the
    /// configured custom headers, each in its order.
    pub fn request_headers(&self, context: &RequestContext) -> (h: Vec<(String, String)>)
        ensures
            header_texts(h@) == header_texts(context.attributes.entry_seq()) + header_texts(
                self.settings().custom_headers.entry_seq(),
            ),
    {
        let mut h: Vec<(String, String)> = Vec::new();
        push_headers(&mut h, &context.attributes);
        push_headers(&mut h, &self.config.custom_headers);
        h
    }

    /// What a response's status means for the request: a success status
    /// passes; any other is the `Http` error `HTTP <status>`, the status as
    /// `reqwest` displays it.
    pub fn check_status(status: u16) -> (r: Result<()>)
        requires
            100 <= status <= 999,
        ensures
            r is Ok <==> status_is_success(status),
            r matches Err(e) ==> http_error_with(e, "HTTP "@ + status_display(status)),
            r matches Err(SdkError::HttpError(m)) ==> has_prefix(
                m@,
                "HTTP "@ + decimal(status as nat) + " "@,
            ),
    {
        if 200 <= status && status <= 299 {
            Ok(())
        } else {
            let shown = status_text(status);
            let r = Self::status_outcome(status, shown.as_str());
            proof {
                let p = decimal(status as nat) + " "@;
                let h = "HTTP "@;
                assert(shown@.subrange(0, p.len() as int) == p);
                assert((h + shown@).subrange(0, (h + p).len() as int) =~= h + shown@.subrange(
                    0,
                    p.len() as int,
                ));
                assert(has_prefix(h + shown@, h + p));
                assert(h + p =~= "HTTP "@ + decimal(status as nat) + " "@);
                assert(r matches Err(SdkError::HttpError(m)) ==> m@ == h + shown@);
            }
            r
        }
    }

    /// The decision after attempt number `attempt` (counted from 0, of at
    /// most `max_attempts`) of sending a request: `sent` is the status of the
    /// response, or the message of a send that failed. A success status is
    /// delivered; any other status (`HTTP <status>`) and a failed send are
    /// `Http` errors, which are retried while attempts remain.
    pub fn after_attempt(attempt: u32, max_attempts: u32, sent: std::result::Result<u16, String>) -> (d:
        AttemptOutcome)
        requires
            attempt < max_attempts,
            sent matches Ok(s) ==> 100 <= s <= 999,
        ensures
            match sent {
                Ok(s) => if status_is_success(s) {
                    d is Deliver
                } else {
                    after_failed_attempt(attempt, max_attempts, "HTTP "@ + status_display(s), d)
                },
                Err(m) => after_failed_attempt(attempt, max_attempts, m@, d),
            },
    {
        let error = match sent {
            Ok(status) => match Self::check_status(status) {
                Ok(()) => {
                    return AttemptOutcome::Deliver;
                },
                Err(e) => e,
            },
            Err(m) => SdkError::HttpError(m),
        };
        match RetryHelper::next_step(attempt, max_attempts, error) {
            RetryStep::Retry { attempt: next } => AttemptOutcome::Retry { attempt: next },
            RetryStep::Fail(e) => AttemptOutcome::Fail(e),
        }
    }

    /// What a response's status means, given how the status is displayed: a
    /// success status (200 to 299) passes; any other is the `Http` error
    /// `HTTP <shown>`.
    pub fn status_outcome(status: u16, shown: &str) -> (r: Result<()>)
        ensures
            r is Ok <==> status_is_success(status),
            r matches Err(e) ==> http_error_with(e, "HTTP "@ + shown@),
    {
        if 200 <= status && status <= 299 {
            Ok(())
        } else {
            let mut msg = "HTTP ".to_owned();
            append(&mut msg, shown);
            Err(SdkError::HttpError(msg))
        }
    }

    /// The error for a response body that could not be read as the expected
    /// value.
    pub fn parse_error(detail: &str) -> (e: SdkError)
        ensures
            http_error_with(e, "Failed to parse response: "@ + detail@),
    {
        let mut msg = "Failed to parse response: ".to_owned();
        append(&mut msg, detail);
        SdkError::HttpError(msg)
    }

    /// The error for a request body that could not be serialized.
    pub fn serialize_error(detail: &str) -> (e: SdkError)
        ensures
            http_error_with(e, "Failed to serialize body: "@ + detail@),
    {
        let mut msg = "Failed to serialize body: ".to_owned();
        append(&mut msg, detail);
        SdkError::HttpError(msg)
    }

    /// The cached body of a GET of `path` at time `now` (nanoseconds since
    /// the Unix epoch), unless it has expired (an expired one is dropped).
    /// With caching off nothing is served and the cache is left alone.
    pub fn cached_response_at(&mut self, path: &str, now: i128) -> (r: Option<Vec<u8>>)
        ensures
            final(self).settings() == old(self).settings(),
            final(self).limiter() == old(self).limiter(),
            final(self).bearer_key() == old(self).bearer_key(),
            final(self).transport() == old(self).transport(),
            final(self).response_cache().max_entries() == old(self).response_cache().max_entries(),
            final(self).response_cache().ttl_nanos() == old(self).response_cache().ttl_nanos(),
            !old(self).settings().cache.enabled ==> r is None && final(self).response_cache()
                == old(self).response_cache(),
            old(self).settings().cache.enabled ==> old(self).response_cache().fetched(path@, now) == (
                bytes_of(r),
                final(self).response_cache().entries(),
            ),
    {
        if !self.config.cache.enabled {
            return None;
        }
        self.cache.get_at(path, now)
    }

    /// Keep the body of a GET of `path` at time `now` (nanoseconds since the
    /// Unix epoch) for later requests; with caching off nothing is kept.
    pub fn remember_response_at(&mut self, path: &str, body: Vec<u8>, now: i128)
        requires
            i128::MIN <= now + old(self).response_cache().ttl_nanos() <= i128::MAX,
        ensures
            final(self).settings() == old(self).settings(),
            final(self).limiter() == old(self).limiter(),
            final(self).bearer_key() == old(self).bearer_key(),
            final(self).transport() == old(self).transport(),
            final(self).response_cache().max_entries() == old(self).response_cache().max_entries(),
            final(self).response_cache().ttl_nanos() == old(self).response_cache().ttl_nanos(),
            !old(self).settings().cache.enabled ==> final(self).response_cache() == old(self).response_cache(),
            old(self).settings().cache.enabled ==> old(self).response_cache().stored(
                path@,
                body@,
                now,
                final(self).response_cache().entries(),
            ),
    {
        if !self.config.cache.enabled {
            return;
        }
        self.cache.set_at(path, body, now)
    }

    /// The cached body of a GET of `path`, unless it has expired (an expired
    /// one is dropped). With caching off nothing is served and the cache is
    /// left alone.
    pub fn cached_response(&mut self, path: &str) -> (r: Option<Vec<u8>>)
        ensures
            final(self).settings() == old(self).settings(),
            final(self).limiter() == old(self).limiter(),
            final(self).bearer_key() == old(self).bearer_key(),
            final(self).transport() == old(self).transport(),
            final(self).response_cache().max_entries() == old(self).response_cache().max_entries(),
            final(self).response_cache().ttl_nanos() == old(self).response_cache().ttl_nanos(),
            !old(self).settings().cache.enabled ==> r is None && final(self).response_cache()
                == old(self).response_cache(),
            old(self).settings().cache.enabled ==> old(self).response_cache().fetched(
                path@,
                final(self).response_cache().clock_time(),
            ) == (bytes_of(r), final(self).response_cache().entries()),
    {
        if !self.config.cache.enabled {
            return None;
        }
        self.cache.get(path)
    }

    /// Keep the body of a GET of `path` for later requests; with caching off
    /// nothing is kept.
    pub fn remember_response(&mut self, path: &str, body: Vec<u8>)
        ensures
            final(self).settings() == old(self).settings(),
            final(self).limiter() == old(self).limiter(),
            final(self).bearer_key() == old(self).bearer_key(),
            final(self).transport() == old(self).transport(),
            final(self).response_cache().max_entries() == old(self).response_cache().max_entries(),
            final(self).response_cache().ttl_nanos() == old(self).response_cache().ttl_nanos(),
            !old(self).settings().cache.enabled ==> final(self).response_cache() == old(self).response_cache(),
            old(self).settings().cache.enabled ==> old(self).response_cache().stored(
                path@,
                body@,
                final(self).response_cache().clock_time(),
                final(self).response_cache().entries(),
            ),
    {
        if !self.config.cache.enabled {
            return;
        }
        self.cache.set(path, body)
    }

    /// Validate email
    pub fn validate_email(&self, email: &str) -> (r: Result<()>)
        ensures
            r is Ok <==> EmailValidator.accepts(email@),
            r is Err ==> crate::validation::rejected_with(r, "Invalid email format"@),
    {
        EmailValidator.validate(email)
    }

    /// Clear cache
    pub fn clear_cache(&mut self)
        ensures
            final(self).response_cache().entries() == Map::<Seq<char>, (Seq<u8>, i128)>::empty(),
            final(self).response_cache().max_entries() == old(self).response_cache().max_entries(),
            final(self).response_cache().ttl_nanos() == old(self).response_cache().ttl_nanos(),
            final(self).settings() == old(self).settings(),
            final(self).limiter() == old(self).limiter(),
            final(self).transport() == old(self).transport(),
    {
        self.cache.clear()
    }
}

/// Appends copies of the entries of `m` to `h`.
fn push_headers(h: &mut Vec<(String, String)>, m: &StringMap<String>)
    ensures
        header_texts(final(h)@) == header_texts(old(h)@) + header_texts(m.entry_seq()),
{
    let n = m.len();
    let ghost start = h@;
    let mut i: usize = 0;
    while i < n
        invariant
            i <= n == m.entry_seq().len(),
            header_texts(h@) == header_texts(start) + header_texts(m.entry_seq().take(i as int)),
        decreases n - i,
    {
        let (k, v) = m.entry_at(i);
        let ghost before = h@;
        h.push((k.clone(), v.clone()));
        assert(header_texts(m.entry_seq().take(i + 1)) =~= header_texts(m.entry_seq().take(i as int)).push(
            (k@, v@),
        ));
        assert(header_texts(h@) =~= header_texts(before).push((k@, v@)));
        i = i + 1;
    }
    assert(m.entry_seq().take(n as int) =~= m.entry_seq());
}

/// With caching on, the body a client remembers for a path is what it
/// serves for that path until the time to live has passed. (With caching
/// off, `cached_response_at` serves nothing and neither call changes the
/// cache, as their contracts state.)
pub proof fn client_serves_what_it_remembered(
    before: Client,
    after: Client,
    path: Seq<char>,
    body: Seq<u8>,
    now: i128,
    later: i128,
)
    requires
        before.settings().cache.enabled,
        i128::MIN <= now + before.response_cache().ttl_nanos() <= i128::MAX,
        before.response_cache().stored(path, body, now, after.response_cache().entries()),
        later <= now + before.response_cache().ttl_nanos(),
    ensures
        after.response_cache().fetched(path, later).0 == Some(body),
        after.response_cache().fetched(path, later).1 == after.response_cache().entries(),
{
    crate::cache::cache_read_after_write(
        before.response_cache(),
        after.response_cache(),
        path,
        body,
        now,
        later,
    );
}

} // verus!
