# rust-sdk

The core of an SDK for HTTP APIs, written in Verus. Every function under
`src/` carries a contract; Verus proves all of them except the trusted items
below, whose contracts it takes on trust.

Trusted items (marked `#[verifier::external_body]` or
`#[verifier::external_type_specification]`), each documented at its
definition with the outside function it calls:

- `text`: `push_char` (`String::push`).
- `cache`: `ExDashMap` (declares `dashmap::DashMap`), `slots_new`,
  `slots_len`, `slots_contains`, `slots_get`, `slots_insert`, `slots_remove`,
  `slots_clear`, `slots_keys`, `slots_first_key`, `expiries_new`,
  `expiries_get`, `expiries_insert`, `expiries_remove`, `expiries_clear`
  (`DashMap` methods).
- `validation`: `regex_match`, `regex_check` (`regex::Regex`), `uuid_parses`
  (`uuid::Uuid::parse_str`), `ammonia_clean`, `ammonia_strip_tags`
  (`ammonia`), `is_alphanumeric` (`char::is_alphanumeric`), `lookup`
  (`HashMap::get`).
- `rate_limit`: `log_new`, `log_get`, `log_insert`, `buckets_new`,
  `buckets_take`, `buckets_insert`, `buckets_tokens` (`DashMap` methods).
- `clock`: `ExInstant` (`std::time::Instant`), `instant_now`, `nanos_since`,
  `nanos_of`, `debug_text`, `utc_now_parts` (`chrono::Utc::now`).
- `config`: `secs_duration`, `millis_duration` (`Duration::from_secs`,
  `Duration::from_millis`).
- `utils`: `random_uuid` (`uuid::Uuid::new_v4`), `hmac_mac`
  (`hmac_sha256::HMAC::mac`), `hex_encode` (`hex::encode`).
- `lru_list`: `LruStore` (holds an `lru::LruCache`), `lru_new`, `lru_get`,
  `lru_put`, `lru_pop`, `lru_clear`, `lru_len`.
- `client`: `ReqwestHandle` (holds a `reqwest::Client`), `build_http_client`
  (`reqwest::ClientBuilder`), `status_text` (`reqwest::StatusCode`).

The spec functions without a body (`regex_finds`, `html_cleaned`,
`hmac_sha256_tag`, `lru_entries`, `cache_slots`, `logged_requests`,
`user_buckets`, `status_display`, ...) name what those
outside functions return.

- `src/` — the verified library: validators and sanitizers (`validation`),
  token bucket, sliding window and per-user rate limiters (`rate_limit`), the
  TTL cache and the LRU cache (`cache`), the SQL query builder and user
  statements (`database`), configuration (`config`), request and response
  contexts and the built-in middlewares (`middleware`), request signatures,
  metrics and the retry decision (`utils`), pagination (`models`), the error
  model (`error`) and the client's request logic (`client`). `string_map` and
  `text` are the verified string map and text helpers they are built on.
  The laws of the library (a read gives back what was written, limiters never
  over-admit, signatures verify, ...) are public proof functions next to the
  code they speak of.
- `tests/` — scenarios and concrete checks of the laws.
- `app/` — what stays outside verification: the asynchronous `reqwest`
  client, the middleware chain, serde forms of the models and configuration,
  loading configuration from the environment or a file, backoff with jitter,
  and shareable handles on the caches and limiters.
