//! The library's laws, each checked on concrete values.

use std::time::Duration;

use rust_sdk::cache::{Cache, LruCache};
use rust_sdk::models::PaginatedResponse;
use rust_sdk::rate_limit::{PerUserRateLimiter, SlidingWindowRateLimiter, TokenBucket};

const SECOND: i128 = 1_000_000_000;

#[test]
fn test_cache_expiration() {
    let mut cache = Cache::new(100, 1);
    cache.set_at("key1", b"\"value1\"".to_vec(), 0);

    // two seconds later the value has expired
    assert!(cache.get_at("key1", 2 * SECOND).is_none());
    assert!(!cache.contains_key("key1"));
}

#[test]
fn cache_gives_back_what_was_stored_until_expiry() {
    let mut cache = Cache::new(10, 60);
    cache.set_at("k", vec![1, 2, 3], 5 * SECOND);
    assert_eq!(cache.get_at("k", 5 * SECOND), Some(vec![1, 2, 3]));
    assert_eq!(cache.get_at("k", 65 * SECOND), Some(vec![1, 2, 3]));
    assert_eq!(cache.get_at("k", 65 * SECOND + 1), None);
    assert_eq!(cache.size(), 0);
}

#[test]
fn cache_never_grows_past_max_entries() {
    let mut cache = Cache::new(3, 60);
    for (i, key) in ["a", "b", "c", "d", "e", "c"].iter().enumerate() {
        cache.set_at(key, vec![i as u8], 0);
        assert!(cache.size() <= 3);
    }
    // the entry evicted to make room is any one of them, so re-storing a
    // key that is present may leave the cache with one entry fewer
    assert_eq!(cache.keys().len(), cache.size());
    assert_eq!(cache.get_at("c", 0), Some(vec![5]));

    let mut tiny = Cache::new(0, 60);
    tiny.set_at("x", vec![1], 0);
    tiny.set_at("y", vec![2], 0);
    assert_eq!(tiny.size(), 1);
    assert_eq!(tiny.get_at("y", 0), Some(vec![2]));
}

#[test]
fn cache_cleanup_drops_only_expired_entries() {
    let mut cache = Cache::new(10, 10);
    cache.set_at("old", vec![1], 0);
    cache.set_at("new", vec![2], 20 * SECOND);
    cache.cleanup_expired_at(15 * SECOND);
    assert_eq!(cache.keys(), vec!["new".to_string()]);
}

#[test]
fn lru_gives_back_what_was_set_until_expiry() {
    let mut lru = LruCache::new(2, 60);
    lru.set_at("k", vec![9], 0);
    assert_eq!(lru.get_at("k", 60 * SECOND), Some(vec![9]));
    assert_eq!(lru.get_at("k", 60 * SECOND + 1), None);
    assert_eq!(lru.get_at("k", 0), None);
}

#[test]
fn lru_drops_least_recently_used() {
    let mut lru = LruCache::new(2, 60);
    lru.set_at("a", vec![1], 0);
    lru.set_at("b", vec![2], 0);
    // reading a makes b the least recently used
    assert_eq!(lru.get_at("a", 0), Some(vec![1]));
    lru.set_at("c", vec![3], 0);
    assert_eq!(lru.size(), 2);
    assert_eq!(lru.get_at("b", 0), None);
    assert_eq!(lru.get_at("a", 0), Some(vec![1]));
    assert_eq!(lru.get_at("c", 0), Some(vec![3]));
}

#[test]
fn burst_never_exceeds_capacity() {
    let mut bucket = TokenBucket::new(10, 1);
    let mut granted = 0;
    for n in [4u32, 4, 4, 1, 1, 1] {
        if bucket.try_acquire_at(n, 0).is_ok() {
            granted += n;
        }
    }
    assert_eq!(granted, 10);
    assert_eq!(bucket.current_tokens(), 0);
}

#[test]
fn bucket_refills_by_whole_seconds_up_to_capacity() {
    let mut bucket = TokenBucket::new(10, 3);
    assert!(bucket.try_acquire_at(10, 0).is_ok());
    // under a second: nothing refilled
    assert!(bucket.try_acquire_at(1, 999_000_000).is_err());
    // two whole seconds: six tokens
    assert!(bucket.try_acquire_at(6, 2_000_000_000).is_ok());
    assert_eq!(bucket.current_tokens(), 0);
    // a long wait refills only up to the capacity
    assert!(bucket.try_acquire_at(0, 100_000_000_000).is_ok());
    assert_eq!(bucket.current_tokens(), 10);
}

#[test]
fn shortage_message_names_both_counts() {
    let mut bucket = TokenBucket::new(3, 1);
    match bucket.try_acquire_at(5, 0) {
        Err(e) => assert_eq!(
            e.to_string(),
            "Rate limit exceeded: Not enough tokens: required 5, available 3"
        ),
        Ok(()) => panic!("expected a refusal"),
    }
}

#[test]
fn users_do_not_share_buckets() {
    let mut limiter = PerUserRateLimiter::new(4, 1);
    assert!(limiter.try_acquire("alice", 4).is_ok());
    assert!(limiter.try_acquire("alice", 1).is_err());
    assert_eq!(limiter.current_tokens("bob"), 4);
    assert!(limiter.try_acquire("bob", 4).is_ok());
    assert_eq!(limiter.current_tokens("alice"), 0);
}

#[test]
fn sliding_window_forgets_old_requests() {
    let mut limiter = SlidingWindowRateLimiter::new(2, Duration::from_secs(1));
    assert!(limiter.allow_request_at("c", 0).is_ok());
    assert!(limiter.allow_request_at("c", 500_000_000).is_ok());
    assert!(limiter.allow_request_at("c", 900_000_000).is_err());
    assert_eq!(limiter.remaining_requests_at("c", 900_000_000), 0);
    // the first request leaves the window after one second
    assert_eq!(limiter.remaining_requests_at("c", 1_000_000_000), 1);
    assert!(limiter.allow_request_at("c", 1_000_000_000).is_ok());
    assert!(limiter.allow_request_at("c", 1_000_000_001).is_err());
    match limiter.allow_request_at("c", 1_000_000_002) {
        Err(e) => assert_eq!(e.to_string(), "Rate limit exceeded: Rate limit exceeded: 2 requests per 1s"),
        Ok(()) => panic!("expected a refusal"),
    }
}

#[test]
fn pages_cover_all_items() {
    for (total, per_page, pages) in [(0u64, 5u32, 0u32), (1, 5, 1), (5, 5, 1), (6, 5, 2), (23, 5, 5)] {
        let r = PaginatedResponse::new(Vec::<u8>::new(), 1, per_page, total);
        assert_eq!(r.total_pages, pages);
        assert!(total <= r.total_pages as u64 * per_page as u64);
        if total > 0 {
            assert!(((r.total_pages - 1) as u64) * (per_page as u64) < total);
        }
    }
    let r = PaginatedResponse::new(vec![1], 1, 0, 7);
    assert_eq!(r.total_pages, u32::MAX);
    let r = PaginatedResponse::new(Vec::<u8>::new(), 1, 0, 0);
    assert_eq!(r.total_pages, 0);
    assert!(!r.has_next);
}

#[test]
fn sliding_window_admits_at_most_max_in_any_window() {
    let window: u128 = 1_000;
    let mut limiter = SlidingWindowRateLimiter::new(3, Duration::from_nanos(1_000));
    let mut admitted: Vec<u128> = Vec::new();
    let mut now: u128 = 0;
    for step in 0..200u128 {
        now += (step * 37) % 230;
        if limiter.allow_request_at("c", now).is_ok() {
            admitted.push(now);
        }
    }
    assert!(admitted.len() > 3);
    for &end in &admitted {
        let in_window = admitted
            .iter()
            .filter(|&&a| a <= end && end - a < window)
            .count();
        assert!(in_window <= 3);
    }
}

#[test]
fn per_user_refusal_within_first_second() {
    let mut l = PerUserRateLimiter::new(10, 1);
    assert!(l.try_acquire_at("user1", 5, 0).is_ok());
    assert_eq!(l.current_tokens("user1"), 5);
    assert!(l.try_acquire_at("user2", 5, 100).is_ok());
    assert_eq!(l.current_tokens("user2"), 5);
    assert!(l.try_acquire_at("user1", 6, 200).is_err());
    assert!(l.try_acquire_at("user2", 5, 300).is_ok());
    assert_eq!(l.current_tokens("user2"), 0);
    // a user first seen late starts full at that time
    assert!(l.try_acquire_at("user3", 10, 5_000_000_000).is_ok());
    assert!(l.try_acquire_at("user3", 1, 5_500_000_000).is_err());
    assert!(l.try_acquire_at("user3", 1, 6_000_000_000).is_ok());
}
