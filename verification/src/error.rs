//! The error model of the SDK.

use vstd::prelude::*;

use crate::text::{append, decimal, push_decimal};

verus! {

/// Every error an SDK operation can report.
#[derive(Debug)]
pub enum SdkError {
    /// Configuration error
    ConfigError(String),
    /// HTTP request failed
    HttpError(String),
    /// Request validation failed
    ValidationError(String),
    /// Serialization error
    SerializationError(String),
    /// Database error
    DatabaseError(String),
    /// Authentication failed
    AuthenticationError(String),
    /// Authorization failed
    AuthorizationError(String),
    /// Rate limit exceeded
    RateLimitExceeded(String),
    /// Resource not found
    NotFound(String),
    /// Conflict error
    Conflict(String),
    /// Timeout error
    Timeout { ms: u64 },
    /// Retry exhausted
    RetryExhausted { attempts: u32, reason: String },
    /// Cache error
    CacheError(String),
    /// Generic error
    Other(String),
}

/// Result type of SDK operations.
pub type Result<T> = core::result::Result<T, SdkError>;

impl SdkError {
    /// The human-readable text of the error.
    pub open spec fn message(&self) -> Seq<char> {
        match self {
            SdkError::ConfigError(m) => "Configuration error: "@ + m@,
            SdkError::HttpError(m) => "HTTP request failed: "@ + m@,
            SdkError::ValidationError(m) => "Validation error: "@ + m@,
            SdkError::SerializationError(m) => "Serialization error: "@ + m@,
            SdkError::DatabaseError(m) => "Database error: "@ + m@,
            SdkError::AuthenticationError(m) => "Authentication failed: "@ + m@,
            SdkError::AuthorizationError(m) => "Authorization failed: "@ + m@,
            SdkError::RateLimitExceeded(m) => "Rate limit exceeded: "@ + m@,
            SdkError::NotFound(m) => "Resource not found: "@ + m@,
            SdkError::Conflict(m) => "Conflict: "@ + m@,
            SdkError::Timeout { ms } => "Request timeout after "@ + decimal(*ms as nat) + "ms"@,
            SdkError::RetryExhausted { attempts, reason } => "Retry exhausted after "@ + decimal(
                *attempts as nat,
            ) + " attempts: "@ + reason@,
            SdkError::CacheError(m) => "Cache error: "@ + m@,
            SdkError::Other(m) => "Error: "@ + m@,
        }
    }

    /// Worth retrying: a timeout, a rate limit or a failed HTTP request.
    pub open spec fn retryable(&self) -> bool {
        ||| self is Timeout
        ||| self is RateLimitExceeded
        ||| self is HttpError
    }

    /// Raised by authentication or authorization.
    pub open spec fn auth_related(&self) -> bool {
        self is AuthenticationError || self is AuthorizationError
    }

    /// Create a new HTTP error
    pub fn http(msg: &str) -> (e: Self)
        ensures
            e matches SdkError::HttpError(m) && m@ == msg@,
    {
        SdkError::HttpError(msg.to_owned())
    }

    /// Create a new validation error
    pub fn validation(msg: &str) -> (e: Self)
        ensures
            e matches SdkError::ValidationError(m) && m@ == msg@,
    {
        SdkError::ValidationError(msg.to_owned())
    }

    /// Create a new configuration error
    pub fn config(msg: &str) -> (e: Self)
        ensures
            e matches SdkError::ConfigError(m) && m@ == msg@,
    {
        SdkError::ConfigError(msg.to_owned())
    }

    /// Check if error is retryable
    pub fn is_retryable(&self) -> (b: bool)
        ensures
            b == self.retryable(),
    {
        match self {
            SdkError::Timeout { .. } | SdkError::RateLimitExceeded(_) | SdkError::HttpError(_) => true,
            _ => false,
        }
    }

    /// Check if error is authentication-related
    pub fn is_auth_error(&self) -> (b: bool)
        ensures
            b == self.auth_related(),
    {
        match self {
            SdkError::AuthenticationError(_) | SdkError::AuthorizationError(_) => true,
            _ => false,
        }
    }

    /// The human-readable text of the error.
    pub fn to_string(&self) -> (s: String)
        ensures
            s@ == self.message(),
    {
        let mut s = String::new();
        match self {
            SdkError::ConfigError(m) => {
                append(&mut s, "Configuration error: ");
                append(&mut s, m.as_str());
            },
            SdkError::HttpError(m) => {
                append(&mut s, "HTTP request failed: ");
                append(&mut s, m.as_str());
            },
            SdkError::ValidationError(m) => {
                append(&mut s, "Validation error: ");
                append(&mut s, m.as_str());
            },
            SdkError::SerializationError(m) => {
                append(&mut s, "Serialization error: ");
                append(&mut s, m.as_str());
            },
            SdkError::DatabaseError(m) => {
                append(&mut s, "Database error: ");
                append(&mut s, m.as_str());
            },
            SdkError::AuthenticationError(m) => {
                append(&mut s, "Authentication failed: ");
                append(&mut s, m.as_str());
            },
            SdkError::AuthorizationError(m) => {
                append(&mut s, "Authorization failed: ");
                append(&mut s, m.as_str());
            },
            SdkError::RateLimitExceeded(m) => {
                append(&mut s, "Rate limit exceeded: ");
                append(&mut s, m.as_str());
            },
            SdkError::NotFound(m) => {
                append(&mut s, "Resource not found: ");
                append(&mut s, m.as_str());
            },
            SdkError::Conflict(m) => {
                append(&mut s, "Conflict: ");
                append(&mut s, m.as_str());
            },
            SdkError::Timeout { ms } => {
                append(&mut s, "Request timeout after ");
                push_decimal(&mut s, *ms);
                append(&mut s, "ms");
            },
            SdkError::RetryExhausted { attempts, reason } => {
                append(&mut s, "Retry exhausted after ");
                push_decimal(&mut s, *attempts as u64);
                append(&mut s, " attempts: ");
                append(&mut s, reason.as_str());
            },
            SdkError::CacheError(m) => {
                append(&mut s, "Cache error: ");
                append(&mut s, m.as_str());
            },
            SdkError::Other(m) => {
                append(&mut s, "Error: ");
                append(&mut s, m.as_str());
            },
        }
        assert(s@ =~= self.message());
        s
    }
}

} // verus!
