//! Edge cases, exact texts and error variants of the library.

use std::collections::HashMap;

use rust_sdk::config::Config;
use rust_sdk::database::{InMemoryDatabase, QueryBuilder, UserDto, UserQueries};
use rust_sdk::error::SdkError;
use rust_sdk::middleware::{
    AuthMiddleware, CachingMiddleware, RateLimitMiddleware, RequestContext, RequestMetadata,
    ResponseContext, ValidationMiddleware,
};
use rust_sdk::string_map::StringMap;
use rust_sdk::utils::{
    generate_trace_id, uuid_string, RateLimiterMetrics, RetryHelper, RetryStep,
    SignatureGenerator, TimeUtils,
};
use rust_sdk::validation::{
    AlphanumericValidator, EmailValidator, LengthValidator, RegexValidator, RequestValidator,
    Sanitizer, UrlValidator, UuidValidator, Validator,
};

fn context() -> RequestContext {
    RequestContext {
        request_id: 0x0123_4567_89ab_4def_8123_4567_89ab_cdef,
        metadata: RequestMetadata {
            request_id: 0x0123_4567_89ab_4def_8123_4567_89ab_cdef,
            correlation_id: None,
            user_id: None,
            timestamp: 0,
            path: "/test".to_string(),
            method: "GET".to_string(),
            client_ip: "127.0.0.1".to_string(),
            user_agent: "test".to_string(),
        },
        attributes: StringMap::new(),
    }
}

#[test]
fn test_auth_middleware() {
    let middleware = AuthMiddleware::new("test-key".to_string());
    let mut context = context();

    middleware.on_request(&mut context);

    assert!(context.attributes.get("Authorization").unwrap().contains("Bearer"));
    assert_eq!(context.attributes.get("Authorization").unwrap(), "Bearer test-key");
}

#[test]
fn middleware_attributes() {
    let mut context = context();
    RateLimitMiddleware::new(250).on_request(&mut context);
    assert_eq!(context.attributes.get("X-Rate-Limit-RPS").unwrap(), "250");
    assert!(ValidationMiddleware.request_id_valid(&context));

    let mut response = ResponseContext {
        status_code: 200,
        response_time_ms: 12,
        attributes: StringMap::new(),
    };
    CachingMiddleware::new("max-age=60".to_string()).on_response(&context, &mut response);
    assert_eq!(response.attributes.get("Cache-Control").unwrap(), "max-age=60");
    assert_eq!(response.status_code, 200);
}

#[test]
fn uuid_text_is_hyphenated_lowercase() {
    assert_eq!(
        uuid_string(0x0123_4567_89ab_4def_8123_4567_89ab_cdef),
        "01234567-89ab-4def-8123-456789abcdef"
    );
    assert_eq!(uuid_string(0), "00000000-0000-0000-0000-000000000000");
    let id = generate_trace_id();
    assert_eq!(id.len(), 36);
    assert_eq!(&id[14..15], "4");
    assert!(UuidValidator.validate(&id).is_ok());
}

#[test]
fn in_memory_database_reads_what_was_inserted() {
    let mut db = InMemoryDatabase::new();
    assert_eq!(db.get("k"), None);
    db.insert("k".to_string(), vec![1, 2]);
    db.insert("other".to_string(), vec![3]);
    assert_eq!(db.get("k"), Some(vec![1, 2]));
    db.insert("k".to_string(), vec![4]);
    assert_eq!(db.get("k"), Some(vec![4]));
    assert_eq!(db.delete("k"), Some(vec![4]));
    assert_eq!(db.get("k"), None);
    assert_eq!(db.get("other"), Some(vec![3]));
}

#[test]
fn user_statements() {
    let id = 0x0123_4567_89ab_4def_8123_4567_89ab_cdef;
    let user = UserDto {
        id: None,
        username: "ann".to_string(),
        email: "ann@example.com".to_string(),
        created_at: None,
    };
    assert_eq!(
        UserQueries::insert(id, &user),
        "INSERT INTO users (id, username, email) VALUES ('01234567-89ab-4def-8123-456789abcdef', 'ann', 'ann@example.com')"
    );
    assert_eq!(
        UserQueries::select_by_id(id),
        "SELECT * FROM users WHERE id = '01234567-89ab-4def-8123-456789abcdef'"
    );
    assert_eq!(UserQueries::select_all(), "SELECT * FROM users");
    assert_eq!(
        UserQueries::update(id, &user),
        "UPDATE users SET username = 'ann', email = 'ann@example.com' WHERE id = '01234567-89ab-4def-8123-456789abcdef'"
    );
    assert_eq!(
        UserQueries::delete(id),
        "DELETE FROM users WHERE id = '01234567-89ab-4def-8123-456789abcdef'"
    );
    let (new_id, q) = UserQueries::insert_new(&user);
    assert_eq!((new_id >> 76) & 0xf, 4);
    assert_eq!(q, UserQueries::insert(new_id, &user));
}

#[test]
fn query_builder_exact_text_and_error() {
    let q = QueryBuilder::new()
        .from("t")
        .order_by("a", "ASC")
        .order_by("b", "DESC")
        .offset(5)
        .build()
        .unwrap();
    assert_eq!(q, "SELECT * FROM t ORDER BY a ASC, b DESC OFFSET 5");
    match QueryBuilder::new().select(vec!["id"]).build() {
        Err(SdkError::DatabaseError(m)) => assert_eq!(m, "Table name not specified"),
        _ => panic!("expected a database error"),
    }
}

#[test]
fn retry_decisions() {
    match RetryHelper::next_step(0, 1, SdkError::validation("bad")) {
        RetryStep::Fail(SdkError::ValidationError(m)) => assert_eq!(m, "bad"),
        _ => panic!("a validation error is given back as it is"),
    }
    match RetryHelper::next_step(0, 3, SdkError::Timeout { ms: 5 }) {
        RetryStep::Retry { attempt } => assert_eq!(attempt, 1),
        _ => panic!("expected a retry"),
    }
    match RetryHelper::next_step(2, 3, SdkError::Timeout { ms: 5 }) {
        RetryStep::Fail(SdkError::RetryExhausted { attempts, reason }) => {
            assert_eq!(attempts, 3);
            assert_eq!(reason, "Request timeout after 5ms");
        }
        _ => panic!("expected to give up"),
    }
    match RetryHelper::next_step(0, 3, SdkError::NotFound("x".to_string())) {
        RetryStep::Fail(SdkError::NotFound(m)) => assert_eq!(m, "x"),
        _ => panic!("a not-found error is given back as it is"),
    }
}

#[test]
fn error_texts_and_classes() {
    let cases = vec![
        (SdkError::config("c"), "Configuration error: c", false, false),
        (SdkError::http("h"), "HTTP request failed: h", true, false),
        (SdkError::validation("v"), "Validation error: v", false, false),
        (SdkError::SerializationError("s".to_string()), "Serialization error: s", false, false),
        (SdkError::DatabaseError("d".to_string()), "Database error: d", false, false),
        (SdkError::AuthenticationError("a".to_string()), "Authentication failed: a", false, true),
        (SdkError::AuthorizationError("z".to_string()), "Authorization failed: z", false, true),
        (SdkError::RateLimitExceeded("r".to_string()), "Rate limit exceeded: r", true, false),
        (SdkError::NotFound("n".to_string()), "Resource not found: n", false, false),
        (SdkError::Conflict("x".to_string()), "Conflict: x", false, false),
        (SdkError::Timeout { ms: 30 }, "Request timeout after 30ms", true, false),
        (
            SdkError::RetryExhausted { attempts: 2, reason: "r".to_string() },
            "Retry exhausted after 2 attempts: r",
            false,
            false,
        ),
        (SdkError::CacheError("k".to_string()), "Cache error: k", false, false),
        (SdkError::Other("o".to_string()), "Error: o", false, false),
    ];
    for (e, text, retryable, auth) in cases {
        assert_eq!(e.to_string(), text);
        assert_eq!(e.is_retryable(), retryable);
        assert_eq!(e.is_auth_error(), auth);
    }
}

#[test]
fn config_from_environment_values() {
    match Config::from_env_vars(None, None, None, None) {
        Err(SdkError::ConfigError(m)) => {
            assert_eq!(m, "SDK_BASE_URL environment variable not set")
        }
        _ => panic!("expected a configuration error"),
    }
    let c = Config::from_env_vars(
        Some("https://x.test".to_string()),
        Some("key".to_string()),
        Some("true".to_string()),
        None,
    )
    .unwrap();
    assert_eq!(c.base_url, "https://x.test");
    assert_eq!(c.api_key, Some("key".to_string()));
    assert!(c.debug);
    assert_eq!(c.environment, "production");
    let c = Config::from_env_vars(
        Some("u".to_string()),
        None,
        Some("TRUE".to_string()),
        Some("staging".to_string()),
    )
    .unwrap();
    assert!(!c.debug);
    assert_eq!(c.environment, "staging");
    assert_eq!(c.http_timeout().as_secs(), 30);
    assert_eq!(c.retry_initial_backoff().as_millis(), 100);
    assert_eq!(c.cache_ttl().as_secs(), 3600);
    assert_eq!(f64::from_bits(c.retry.multiplier_bits), 2.0);
}

#[test]
fn config_header_replaces_earlier_value() {
    let c = Config::new("u").with_header("A", "1").with_header("B", "2").with_header("A", "3");
    assert_eq!(c.custom_headers.len(), 2);
    assert_eq!(c.custom_headers.get("A"), Some(&"3".to_string()));
    assert_eq!(c.custom_headers.get("B"), Some(&"2".to_string()));
}

#[test]
fn validator_messages() {
    match EmailValidator.validate("nope") {
        Err(SdkError::ValidationError(m)) => assert_eq!(m, "Invalid email format"),
        _ => panic!("expected a validation error"),
    }
    match UrlValidator.validate("ftp://x") {
        Err(SdkError::ValidationError(m)) => assert_eq!(m, "Invalid URL format"),
        _ => panic!("expected a validation error"),
    }
    assert!(UrlValidator.validate("http://x").is_ok());
    match UuidValidator.validate("not-a-uuid") {
        Err(SdkError::ValidationError(m)) => assert_eq!(m, "Invalid UUID format"),
        _ => panic!("expected a validation error"),
    }
    match LengthValidator::new(2, 3).validate("abcd") {
        Err(SdkError::ValidationError(m)) => assert_eq!(m, "Length must be between 2 and 3"),
        _ => panic!("expected a validation error"),
    }
    // the length is that of the UTF-8 encoding
    assert!(LengthValidator::new(2, 2).validate("é").is_ok());
    assert!(AlphanumericValidator.validate("").is_ok());
    assert!(AlphanumericValidator.validate("héllo_1").is_ok());
    match RegexValidator::new("(") {
        Err(SdkError::ValidationError(m)) => assert!(m.starts_with("Invalid regex pattern: ")),
        _ => panic!("expected an invalid pattern"),
    }
    match RegexValidator::new("^a+$").unwrap().validate("b") {
        Err(SdkError::ValidationError(m)) => assert_eq!(m, "Value does not match pattern"),
        _ => panic!("expected a validation error"),
    }
}

#[test]
fn request_validator_checks_every_rule() {
    let validator = RequestValidator::new()
        .add_rule("email", Box::new(EmailValidator))
        .add_rule("name", Box::new(LengthValidator::new(2, 5)))
        .add_rule("name", Box::new(AlphanumericValidator));
    let mut data = HashMap::new();
    data.insert("email".to_string(), "a@b.co".to_string());
    data.insert("name".to_string(), "bob".to_string());
    assert!(validator.validate(&data).is_ok());
    data.insert("name".to_string(), "b b".to_string());
    assert!(validator.validate(&data).is_err());
    data.remove("name");
    // a field without a value is not checked
    assert!(validator.validate(&data).is_ok());
}

#[test]
fn sanitizer_exact_outputs() {
    assert_eq!(Sanitizer::sanitize_sql("O'Brien; --x /*y*/"), "O''Brien x y");
    assert_eq!(Sanitizer::sanitize_path("../a/./b\\..\\c"), "a/b\\c");
    assert_eq!(Sanitizer::sanitize_path("..\\..\\etc/./x"), "etc/x");
    assert_eq!(Sanitizer::trim("  \t hi there \n"), "hi there");
    assert_eq!(Sanitizer::trim("   "), "");
}

#[test]
fn sanitize_sql_counts() {
    let input = "it's a 'test'; ok";
    let out = Sanitizer::sanitize_sql(input);
    assert_eq!(out.matches('\'').count(), 2 * input.matches('\'').count());
    assert!(!out.contains(';'));
}

#[test]
fn sanitize_path_removes_rejoined_parent_references() {
    // removals are repeated, so what earlier removals join up goes too
    assert_eq!(Sanitizer::sanitize_path(".....///"), "");
    assert_eq!(Sanitizer::sanitize_path("....\\.//"), "");
    let out = Sanitizer::sanitize_path("a/....//b/..\\.\\c");
    assert!(!out.contains("../") && !out.contains("..\\"));
}

#[test]
fn signatures_are_hex_hmac() {
    let sig = SignatureGenerator::generate_signature("key", "The quick brown fox jumps over the lazy dog");
    assert_eq!(sig, "f7bc83f430538424b13298e6aa6fb143ef4d59a14946175997479dbc2d1a3cd8");
    assert!(SignatureGenerator::verify_signature("key", "The quick brown fox jumps over the lazy dog", &sig).is_ok());
    match SignatureGenerator::verify_signature("other", "The quick brown fox jumps over the lazy dog", &sig) {
        Err(SdkError::AuthenticationError(m)) => assert_eq!(m, "Signature verification failed"),
        _ => panic!("expected an authentication error"),
    }
}

#[test]
fn time_conversions_and_metrics() {
    assert_eq!(TimeUtils::millis_to_secs(1999), 1);
    assert_eq!(TimeUtils::secs_to_millis(0), 0);
    let mut m = RateLimiterMetrics::default();
    m.record_rejection();
    m.record_request();
    assert_eq!(m.total_requests(), 1);
    assert_eq!(m.rejected_requests(), 1);
}

#[test]
fn string_map_keeps_insertion_order() {
    let mut m: StringMap<u32> = StringMap::new();
    assert_eq!(m.insert("b".to_string(), 1), None);
    assert_eq!(m.insert("a".to_string(), 2), None);
    assert_eq!(m.insert("b".to_string(), 3), Some(1));
    assert_eq!(m.len(), 2);
    assert_eq!(m.entry_at(0), (&"b".to_string(), &3));
    assert_eq!(m.remove("b"), Some(3));
    assert_eq!(m.entry_at(0), (&"a".to_string(), &2));
    m.clear();
    assert_eq!(m.len(), 0);
}

#[test]
fn request_validator_returns_the_failing_validators_error() {
    let validator = RequestValidator::new()
        .add_rule("name", Box::new(LengthValidator::new(2, 5)))
        .add_rule("name", Box::new(AlphanumericValidator));
    let mut data = HashMap::new();
    data.insert("name".to_string(), "a b".to_string());
    match validator.validate(&data) {
        Err(SdkError::ValidationError(m)) => assert_eq!(
            m,
            "Value must contain only alphanumeric characters, hyphens, and underscores"
        ),
        _ => panic!("expected the alphanumeric validator's error"),
    }
    data.insert("name".to_string(), "toolong!".to_string());
    match validator.validate(&data) {
        Err(SdkError::ValidationError(m)) => assert_eq!(m, "Length must be between 2 and 5"),
        _ => panic!("expected the length validator's error"),
    }
}

#[test]
fn adding_a_rule_adds_one_check() {
    let before = RequestValidator::new().add_rule("a", Box::new(LengthValidator::new(1, 3)));
    let mut data = HashMap::new();
    data.insert("a".to_string(), "xy".to_string());
    data.insert("b".to_string(), "not an email".to_string());
    assert!(before.validate(&data).is_ok());
    let after = before.add_rule("b", Box::new(EmailValidator));
    assert!(after.validate(&data).is_err());
    data.insert("b".to_string(), "x@y.io".to_string());
    assert!(after.validate(&data).is_ok());
}

#[test]
fn trim_matches_std_and_is_idempotent() {
    for code in 0u32..0x3100 {
        if let Some(c) = char::from_u32(code) {
            let s = format!("{c}x{c}");
            let expected = if c.is_whitespace() { "x".to_string() } else { s.clone() };
            assert_eq!(Sanitizer::trim(&s), expected);
        }
    }
    let once = Sanitizer::trim(" \u{3000} a b \u{2028}");
    assert_eq!(once, "a b");
    assert_eq!(Sanitizer::trim(&once), once);
}
