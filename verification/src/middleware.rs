//! Request and response contexts, and what the built-in middlewares do to
//! them.

use vstd::prelude::*;

use crate::string_map::StringMap;
use crate::text::{append, decimal, decimal_string};
use crate::utils::{uuid_string, uuid_text};

verus! {

/// Request metadata. Identifiers are UUIDs as 128-bit numbers; the timestamp
/// is in nanoseconds since the Unix epoch (UTC).
#[derive(Debug, Clone)]
pub struct RequestMetadata {
    /// Request ID
    pub request_id: u128,
    /// Correlation ID
    pub correlation_id: Option<u128>,
    /// User ID
    pub user_id: Option<u128>,
    /// Timestamp
    pub timestamp: i128,
    /// Request path
    pub path: String,
    /// Request method
    pub method: String,
    /// Client IP
    pub client_ip: String,
    /// User agent
    pub user_agent: String,
}

/// Request context
pub struct RequestContext {
    /// Request ID (a UUID as a 128-bit number)
    pub request_id: u128,
    /// Metadata
    pub metadata: RequestMetadata,
    /// Custom attributes
    pub attributes: StringMap<String>,
}

/// Response context
pub struct ResponseContext {
    /// Status code
    pub status_code: u16,
    /// Response time in ms
    pub response_time_ms: u64,
    /// Custom attributes
    pub attributes: StringMap<String>,
}

/// The attributes after storing `value` under `name`.
pub open spec fn attribute_set(
    before: Map<Seq<char>, String>,
    after: Map<Seq<char>, String>,
    name: Seq<char>,
    value: Seq<char>,
) -> bool {
    &&& after.dom() == before.dom().insert(name)
    &&& after[name]@ == value
    &&& forall|k: Seq<char>| k != name && #[trigger] before.contains_key(k) ==> after[k] == before[k]
}

/// Logging middleware: reports requests, responses and errors; it changes
/// neither context.
pub struct LoggingMiddleware;

/// Authentication middleware
pub struct AuthMiddleware {
    api_key: String,
}

impl AuthMiddleware {
    /// The API key sent with each request.
    pub closed spec fn api_key(&self) -> Seq<char> {
        self.api_key@
    }

    /// Create new auth middleware
    pub fn new(api_key: String) -> (m: Self)
        ensures
            m.api_key() == api_key@,
    {
        Self { api_key }
    }

    /// Adds the `Authorization` attribute `Bearer <api key>` to the request.
    pub fn on_request(&self, context: &mut RequestContext)
        ensures
            attribute_set(
                old(context).attributes@,
                final(context).attributes@,
                "Authorization"@,
                "Bearer "@ + self.api_key(),
            ),
            final(context).request_id == old(context).request_id,
            final(context).metadata == old(context).metadata,
    {
        let mut value = "Bearer ".to_owned();
        append(&mut value, self.api_key.as_str());
        context.attributes.insert("Authorization".to_owned(), value);
    }
}

/// Rate limiting middleware
pub struct RateLimitMiddleware {
    requests_per_second: u32,
}

impl RateLimitMiddleware {
    /// The advertised rate.
    pub closed spec fn requests_per_second(&self) -> u32 {
        self.requests_per_second
    }

    /// Create new rate limit middleware
    pub fn new(requests_per_second: u32) -> (m: Self)
        ensures
            m.requests_per_second() == requests_per_second,
    {
        Self { requests_per_second }
    }

    /// Adds the `X-Rate-Limit-RPS` attribute, the rate in decimal, to the request.
    pub fn on_request(&self, context: &mut RequestContext)
        ensures
            attribute_set(
                old(context).attributes@,
                final(context).attributes@,
                "X-Rate-Limit-RPS"@,
                decimal(self.requests_per_second() as nat),
            ),
            final(context).request_id == old(context).request_id,
            final(context).metadata == old(context).metadata,
    {
        let value = decimal_string(self.requests_per_second as u64);
        context.attributes.insert("X-Rate-Limit-RPS".to_owned(), value);
    }
}

/// Request validation middleware: warns about a request whose identifier
/// has an empty text.
pub struct ValidationMiddleware;

impl ValidationMiddleware {
    /// Whether the request's identifier has a non-empty text (when not, the
    /// middleware warns).
    pub fn request_id_valid(&self, context: &RequestContext) -> (b: bool)
        ensures
            b == (uuid_text(context.request_id).len() > 0),
    {
        let text = uuid_string(context.request_id);
        !text.as_str().is_empty()
    }
}

/// The text of a request identifier is never empty, so the validation
/// middleware never warns.
pub proof fn request_ids_always_valid(id: u128)
    ensures
        uuid_text(id).len() == 36,
{
    crate::utils::lemma_hex_digits_len(id as nat, 32);
}

/// Caching middleware
pub struct CachingMiddleware {
    cache_control: String,
}

impl CachingMiddleware {
    /// The `Cache-Control` value set on responses.
    pub closed spec fn cache_control(&self) -> Seq<char> {
        self.cache_control@
    }

    /// Create new caching middleware
    pub fn new(cache_control: String) -> (m: Self)
        ensures
            m.cache_control() == cache_control@,
    {
        Self { cache_control }
    }

    /// Adds the `Cache-Control` attribute to the response.
    pub fn on_response(&self, _request: &RequestContext, response: &mut ResponseContext)
        ensures
            attribute_set(
                old(response).attributes@,
                final(response).attributes@,
                "Cache-Control"@,
                self.cache_control(),
            ),
            final(response).status_code == old(response).status_code,
            final(response).response_time_ms == old(response).response_time_ms,
    {
        response.attributes.insert("Cache-Control".to_owned(), self.cache_control.clone());
    }
}

} // verus!
