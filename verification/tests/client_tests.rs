//! Scenarios of the client's own logic.

use rust_sdk::client::{AttemptOutcome, Client};
use rust_sdk::config::Config;
use rust_sdk::error::SdkError;

#[test]
fn client_test_client_creation() {
    let client = Client::new("https://api.example.com");
    assert!(client.is_ok());
}

#[test]
fn test_client_with_config() {
    let config = Config::new("https://api.example.com");
    let client = Client::with_config(config);
    assert!(client.is_ok());
}

#[test]
fn test_validate_email() {
    let client = Client::new("https://api.example.com").unwrap();

    assert!(client.validate_email("test@example.com").is_ok());
    assert!(client.validate_email("invalid-email").is_err());
}

#[test]
fn test_middleware_attributes_applied() {
    // Client with API key should have auth middleware
    let config = Config::new("https://api.example.com").with_api_key("test-key");
    let client = Client::with_config(config).unwrap();

    let mut context = client.build_context("/test", "GET");
    client.apply_request_middleware(&mut context);

    // The auth middleware should have added the Authorization attribute
    assert!(context.attributes.contains_key("Authorization"));
    assert!(context
        .attributes
        .get("Authorization")
        .unwrap()
        .contains("Bearer test-key"));
}

#[test]
fn test_apply_attributes_adds_headers() {
    let config = Config::new("https://api.example.com").with_header("X-Custom", "custom-value");
    let client = Client::with_config(config).unwrap();

    let mut context = client.build_context("/test", "GET");
    context
        .attributes
        .insert("Authorization".to_string(), "Bearer token".to_string());

    let headers = client.request_headers(&context);
    let find = |name: &str| {
        headers
            .iter()
            .find(|(k, _)| k == name)
            .map(|(_, v)| v.clone())
    };
    assert_eq!(find("Authorization"), Some("Bearer token".to_string()));
    assert_eq!(find("X-Custom"), Some("custom-value".to_string()));
}

#[test]
fn integration_tests_test_client_creation() {
    let client = Client::new("https://api.example.com");
    assert!(client.is_ok());
}

#[test]
fn test_client_from_config() {
    let config = Config::new("https://api.example.com");
    let client = Client::with_config(config);
    assert!(client.is_ok());
}

#[test]
fn test_client_validate_email() {
    let client = Client::new("https://api.example.com").unwrap();

    assert!(client.validate_email("valid@example.com").is_ok());
    assert!(client.validate_email("invalid.email").is_err());
    assert!(client.validate_email("test+tag@example.co.uk").is_ok());
}

#[test]
fn client_without_api_key_sets_no_authorization() {
    let client = Client::new("https://api.example.com").unwrap();
    let mut context = client.build_context("/users", "POST");
    client.apply_request_middleware(&mut context);
    assert!(!context.attributes.contains_key("Authorization"));
    assert_eq!(context.metadata.path, "/users");
    assert_eq!(context.metadata.method, "POST");
    assert_eq!(context.metadata.client_ip, "127.0.0.1");
    assert_eq!(context.metadata.user_agent, "rust-sdk");
    assert_eq!(context.metadata.request_id, context.request_id);
    assert_eq!((context.request_id >> 76) & 0xf, 4);
}

#[test]
fn request_headers_keep_order() {
    let config = Config::new("https://api.example.com")
        .with_header("X-One", "1")
        .with_header("X-Two", "2");
    let client = Client::with_config(config).unwrap();
    let mut context = client.build_context("/", "GET");
    context.attributes.insert("A".to_string(), "a".to_string());
    let headers = client.request_headers(&context);
    let names: Vec<&str> = headers.iter().map(|(k, _)| k.as_str()).collect();
    assert_eq!(names, vec!["A", "X-One", "X-Two"]);
}

#[test]
fn client_url_joins_base_and_path() {
    let client = Client::new("https://api.example.com").unwrap();
    assert_eq!(client.url_for("/health"), "https://api.example.com/health");
}

#[test]
fn status_outcomes() {
    assert!(Client::check_status(200).is_ok());
    assert!(Client::check_status(204).is_ok());
    match Client::check_status(404) {
        Err(SdkError::HttpError(m)) => assert_eq!(m, "HTTP 404 Not Found"),
        _ => panic!("expected an HTTP error"),
    }
    match Client::check_status(500) {
        Err(SdkError::HttpError(m)) => assert_eq!(m, "HTTP 500 Internal Server Error"),
        _ => panic!("expected an HTTP error"),
    }
    match Client::status_outcome(302, "302 Found") {
        Err(SdkError::HttpError(m)) => assert_eq!(m, "HTTP 302 Found"),
        _ => panic!("expected an HTTP error"),
    }
    assert!(Client::status_outcome(299, "ignored").is_ok());
}

#[test]
fn assemble_reports_build_failure() {
    let config = Config::new("https://api.example.com");
    match Client::assemble(config, Err("no TLS backend".to_string())) {
        Err(SdkError::HttpError(m)) => {
            assert_eq!(m, "Failed to create HTTP client: no TLS backend")
        }
        _ => panic!("expected an HTTP error"),
    }
}

#[test]
fn client_admits_configured_rate() {
    let mut config = Config::new("https://api.example.com");
    config.rate_limit.requests_per_second = 2;
    let mut client = Client::with_config(config).unwrap();
    assert!(client.admit_request().is_ok());
    assert!(client.admit_request().is_ok());
    match client.admit_request() {
        Err(SdkError::RateLimitExceeded(m)) => {
            assert_eq!(m, "Rate limit exceeded: 2 requests per 1s")
        }
        _ => panic!("expected the limiter to refuse"),
    }
}

#[test]
fn client_caches_responses() {
    let mut client = Client::new("https://api.example.com").unwrap();
    assert!(client.cached_response("/items").is_none());
    client.remember_response("/items", b"[1,2]".to_vec());
    assert_eq!(client.cached_response("/items"), Some(b"[1,2]".to_vec()));
    client.clear_cache();
    assert!(client.cached_response("/items").is_none());
}

#[test]
fn client_error_texts() {
    match Client::parse_error("expected value") {
        SdkError::HttpError(m) => assert_eq!(m, "Failed to parse response: expected value"),
        _ => panic!("expected an HTTP error"),
    }
    match Client::serialize_error("bad") {
        SdkError::HttpError(m) => assert_eq!(m, "Failed to serialize body: bad"),
        _ => panic!("expected an HTTP error"),
    }
}

#[test]
fn client_without_rate_limiting_admits_everything() {
    let mut config = Config::new("https://api.example.com");
    config.rate_limit.enabled = false;
    config.rate_limit.requests_per_second = 0;
    let mut client = Client::with_config(config).unwrap();
    for _ in 0..10 {
        assert!(client.admit_request().is_ok());
    }
}

#[test]
fn client_without_cache_serves_nothing() {
    let mut config = Config::new("https://api.example.com");
    config.cache.enabled = false;
    let mut client = Client::with_config(config).unwrap();
    client.remember_response("/items", b"[1]".to_vec());
    assert!(client.cached_response("/items").is_none());
    assert_eq!(client.cache().size(), 0);
}

#[test]
fn client_http_timeouts_follow_config() {
    let mut config = Config::new("https://api.example.com");
    config.http.timeout_secs = 7;
    config.http.connect_timeout_secs = 3;
    let client = Client::with_config(config).unwrap();
    assert_eq!(client.http_client().timeout, std::time::Duration::from_secs(7));
    assert_eq!(client.http_client().connect_timeout, std::time::Duration::from_secs(3));
}

#[test]
fn builder_keeps_other_settings() {
    let mut config = Config::new("https://api.example.com");
    config.rate_limit.requests_per_second = 2;
    config.cache.max_entries = 7;
    let config = config.with_api_key("test-key").with_header("X", "y").with_debug(true);
    assert_eq!(config.rate_limit.requests_per_second, 2);
    assert_eq!(config.cache.max_entries, 7);
    let mut client = Client::with_config(config).unwrap();
    assert_eq!(client.config().api_key, Some("test-key".to_string()));
    assert!(client.admit_request().is_ok());
    assert!(client.admit_request().is_ok());
    assert!(client.admit_request().is_err());
    assert_eq!(client.cache().size(), 0);
}

#[test]
fn attempt_decisions() {
    assert!(matches!(Client::after_attempt(0, 3, Ok(200)), AttemptOutcome::Deliver));
    assert!(matches!(
        Client::after_attempt(0, 3, Ok(503)),
        AttemptOutcome::Retry { attempt: 1 }
    ));
    match Client::after_attempt(2, 3, Ok(404)) {
        AttemptOutcome::Fail(SdkError::RetryExhausted { attempts, reason }) => {
            assert_eq!(attempts, 3);
            assert_eq!(reason, "HTTP request failed: HTTP 404 Not Found");
        }
        other => panic!("unexpected {:?}", other),
    }
    match Client::after_attempt(0, 1, Err("connection refused".to_string())) {
        AttemptOutcome::Fail(SdkError::RetryExhausted { attempts, reason }) => {
            assert_eq!(attempts, 1);
            assert_eq!(reason, "HTTP request failed: connection refused");
        }
        other => panic!("unexpected {:?}", other),
    }
}

#[test]
fn client_serves_remembered_body_until_ttl() {
    let second: i128 = 1_000_000_000;
    let mut client = Client::new("https://api.example.com").unwrap();
    client.remember_response_at("/items", b"[1,2]".to_vec(), 0);
    assert_eq!(client.cached_response_at("/items", 3600 * second), Some(b"[1,2]".to_vec()));
    assert_eq!(client.cached_response_at("/items", 3600 * second + 1), None);

    let mut config = Config::new("https://api.example.com");
    config.cache.enabled = false;
    let mut off = Client::with_config(config).unwrap();
    off.remember_response_at("/items", b"[1]".to_vec(), 0);
    assert_eq!(off.cached_response_at("/items", 0), None);
    assert_eq!(off.cache().size(), 0);
}
