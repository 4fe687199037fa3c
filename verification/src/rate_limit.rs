//! Rate limiting: a token bucket, a sliding window limiter and a per-user
//! limiter made of token buckets.
//!
//! Time is measured on the monotonic clock, in nanoseconds after the moment
//! the limiter was created. Each limiter reads its clock in its public
//! operations, and their contracts state the outcome at that reading, which
//! is never below the limiter's reading before; the same operations that
//! take the time as an argument (`..._at`) leave the clock alone.

use dashmap::DashMap;
use std::time::Duration;
use vstd::prelude::*;

use crate::clock::{debug_text, duration_debug, duration_nanos, nanos_of, Stopwatch};
use crate::error::{Result, SdkError};
use crate::text::{append, decimal, push_decimal};

verus! {

// ---------------------------------------------------------------------
// Token bucket
// ---------------------------------------------------------------------

/// The state of a token bucket.
pub struct BucketState {
    /// Most tokens the bucket holds.
    pub capacity: u32,
    /// Tokens added per whole second elapsed.
    pub refill_rate: u32,
    /// Tokens available.
    pub tokens: u32,
    /// When the bucket was last refilled (nanoseconds after its creation).
    pub last_refill: u128,
}

/// Nanoseconds from `earlier` to `later`, zero if `later` comes first.
pub open spec fn elapsed(earlier: u128, later: u128) -> u128 {
    if later >= earlier {
        (later - earlier) as u128
    } else {
        0
    }
}

/// Tokens a refill adds after `elapsed_ns`: the rate times the whole seconds
/// of the elapsed time, its milliseconds being first taken as a `u32` (as
/// `elapsed.as_millis() as u32`, which wraps around after about 49 days).
pub open spec fn refill_amount(rate: u32, elapsed_ns: u128) -> nat {
    (((#[verifier::truncate] ((elapsed_ns / 1_000_000) as u32)) / 1000) as nat) * (rate as nat)
}

impl BucketState {
    /// The state after refilling at time `now`: when whole seconds of
    /// refill are due, the tokens grow by them up to the capacity and the
    /// refill time becomes `now`; otherwise nothing changes.
    pub open spec fn refilled(self, now: u128) -> BucketState {
        let add = refill_amount(self.refill_rate, elapsed(self.last_refill, now));
        if add > 0 {
            BucketState {
                tokens: if self.tokens + add > self.capacity {
                    self.capacity
                } else {
                    (self.tokens + add) as u32
                },
                last_refill: now,
                ..self
            }
        } else {
            self
        }
    }

    /// The text of the error when `wanted` tokens exceed the `available` ones.
    pub open spec fn shortage_message(wanted: u32, available: u32) -> Seq<char> {
        "Not enough tokens: required "@ + decimal(wanted as nat) + ", available "@ + decimal(
            available as nat,
        )
    }

    /// Outcome of acquiring `n` tokens at time `now`: the state after, and
    /// whether the tokens were granted.
    pub open spec fn acquire(self, n: u32, now: u128) -> (BucketState, bool) {
        let s = self.refilled(now);
        if s.tokens >= n {
            (BucketState { tokens: (s.tokens - n) as u32, ..s }, true)
        } else {
            (s, false)
        }
    }

    /// A fresh bucket: full, refilled at its creation.
    pub open spec fn fresh(capacity: u32, refill_rate: u32) -> BucketState {
        Self::fresh_at(capacity, refill_rate, 0)
    }

    /// A bucket made full at time `now`.
    pub open spec fn fresh_at(capacity: u32, refill_rate: u32, now: u128) -> BucketState {
        BucketState { capacity, refill_rate, tokens: capacity, last_refill: now }
    }
}

/// Token bucket rate limiter
pub struct TokenBucket {
    capacity: u32,
    refill_rate: u32,
    tokens: u32,
    clock: Stopwatch,
    last_refill: u128,
}

impl View for TokenBucket {
    type V = BucketState;

    closed spec fn view(&self) -> BucketState {
        BucketState {
            capacity: self.capacity,
            refill_rate: self.refill_rate,
            tokens: self.tokens,
            last_refill: self.last_refill,
        }
    }
}

impl TokenBucket {
    /// A bucket never holds more tokens than its capacity.
    #[verifier::type_invariant]
    pub closed spec fn within_capacity(&self) -> bool {
        self.tokens <= self.capacity
    }

    /// The time of the latest reading of the bucket's clock, in
    /// nanoseconds after its creation.
    pub closed spec fn clock_time(&self) -> u128 {
        self.clock.latest()
    }

    /// Create new token bucket, full.
    pub fn new(capacity: u32, refill_rate: u32) -> (b: Self)
        ensures
            b@ == BucketState::fresh(capacity, refill_rate),
            b.clock_time() == 0,
    {
        Self { capacity, refill_rate, tokens: capacity, clock: Stopwatch::start(), last_refill: 0 }
    }

    /// A full bucket whose last refill is at time `now` of `clock`.
    fn full_at(capacity: u32, refill_rate: u32, clock: Stopwatch, now: u128) -> (b: Self)
        ensures
            b@ == BucketState::fresh_at(capacity, refill_rate, now),
    {
        Self { capacity, refill_rate, tokens: capacity, clock, last_refill: now }
    }

    /// Try to acquire tokens at time `now` (nanoseconds after the bucket's
    /// creation): first refill, then take the tokens if there are enough.
    pub fn try_acquire_at(&mut self, tokens: u32, now: u128) -> (r: Result<()>)
        ensures
            (final(self)@, r is Ok) == old(self)@.acquire(tokens, now),
            final(self).clock_time() == old(self).clock_time(),
            old(self)@.tokens <= old(self)@.capacity,
            final(self)@.tokens <= final(self)@.capacity,
            r matches Err(e) ==> e matches SdkError::RateLimitExceeded(m) && m@
                == BucketState::shortage_message(tokens, old(self)@.refilled(now).tokens),
    {
        proof {
            use_type_invariant(&*self);
        }
        let waited: u128 = if now >= self.last_refill {
            now - self.last_refill
        } else {
            0
        };
        let millis: u32 = #[verifier::truncate] ((waited / 1_000_000) as u32);
        let secs: u64 = (millis / 1000) as u64;
        let rate: u64 = self.refill_rate as u64;
        assert(secs * rate <= 4_294_967 * 4_294_967_295) by (nonlinear_arith)
            requires
                secs <= 4_294_967,
                rate <= 4_294_967_295,
        ;
        let add: u64 = secs * rate;
        assert(millis == #[verifier::truncate] ((elapsed(self.last_refill, now) / 1_000_000) as u32));
        assert(add == refill_amount(self.refill_rate, elapsed(self.last_refill, now)));
        if add > 0 {
            let sum: u64 = self.tokens as u64 + add;
            self.tokens = if sum > self.capacity as u64 {
                self.capacity
            } else {
                sum as u32
            };
            self.last_refill = now;
        }
        let current = self.tokens;
        if current >= tokens {
            self.tokens = current - tokens;
            Ok(())
        } else {
            let mut m = String::new();
            append(&mut m, "Not enough tokens: required ");
            push_decimal(&mut m, tokens as u64);
            append(&mut m, ", available ");
            push_decimal(&mut m, current as u64);
            assert(m@ =~= BucketState::shortage_message(tokens, current));
            Err(SdkError::RateLimitExceeded(m))
        }
    }

    /// Try to acquire tokens now: the bucket's clock is read (a reading is
    /// never below the one before), and the tokens are acquired at that time.
    pub fn try_acquire(&mut self, tokens: u32) -> (r: Result<()>)
        ensures
            final(self).clock_time() >= old(self).clock_time(),
            (final(self)@, r is Ok) == old(self)@.acquire(tokens, final(self).clock_time()),
            r matches Err(e) ==> e matches SdkError::RateLimitExceeded(m) && m@
                == BucketState::shortage_message(
                tokens,
                old(self)@.refilled(final(self).clock_time()).tokens,
            ),
    {
        proof {
            use_type_invariant(&*self);
        }
        let mut clock = self.clock;
        let now = clock.read();
        self.clock = clock;
        let r = self.try_acquire_at(tokens, now);
        r
    }

    /// Get current tokens (without refilling)
    pub fn current_tokens(&self) -> (n: u32)
        ensures
            n == self@.tokens,
            n <= self@.capacity,
    {
        proof {
            use_type_invariant(self);
        }
        self.tokens
    }
}

/// The state and the tokens granted after the requests `reqs`, in order,
/// all made at time `now`.
pub open spec fn burst(s: BucketState, reqs: Seq<u32>, now: u128) -> (BucketState, nat)
    decreases reqs.len(),
{
    if reqs.len() == 0 {
        (s, 0)
    } else {
        let (t, granted) = burst(s, reqs.drop_last(), now);
        let (u, ok) = t.acquire(reqs.last(), now);
        (u, granted + if ok {
            reqs.last() as nat
        } else {
            0nat
        })
    }
}

/// Refilling twice at the same time refills once.
proof fn lemma_refill_idempotent(s: BucketState, now: u128)
    ensures
        s.refilled(now).refilled(now) == s.refilled(now),
{
    let r = s.refilled(now);
    if refill_amount(s.refill_rate, elapsed(s.last_refill, now)) > 0 {
        assert(r.last_refill == now);
        assert(elapsed(now, now) == 0);
        lemma_no_refill_at_once(r.refill_rate);
    }
}

/// No time elapsed refills nothing.
proof fn lemma_no_refill_at_once(rate: u32)
    ensures
        refill_amount(rate, 0) == 0,
{
    let z: u128 = 0;
    let m: u32 = #[verifier::truncate] ((z / 1_000_000) as u32);
    assert(m == 0u32) by (bit_vector)
        requires
            z == 0,
            m == #[verifier::truncate] ((z / 1_000_000) as u32),
    ;
    assert(m / 1000 == 0);
    let q: nat = (m / 1000) as nat;
    assert(q == 0);
    assert(q * (rate as nat) == 0) by (nonlinear_arith)
        requires
            q == 0,
    ;
}

/// The tokens granted to a burst of requests made at one time, together
/// with the tokens left, are the tokens the bucket had after refilling.
proof fn lemma_burst_conserves(s: BucketState, reqs: Seq<u32>, now: u128)
    ensures
        burst(s, reqs, now).0.refilled(now).tokens + burst(s, reqs, now).1 == s.refilled(
            now,
        ).tokens,
    decreases reqs.len(),
{
    if reqs.len() > 0 {
        lemma_burst_conserves(s, reqs.drop_last(), now);
        let (t, g) = burst(s, reqs.drop_last(), now);
        lemma_refill_idempotent(t, now);
        let r = t.refilled(now);
        let n = reqs.last();
        if r.tokens >= n {
            let u = BucketState { tokens: (r.tokens - n) as u32, ..r };
            assert(u.refilled(now) == u) by {
                if refill_amount(t.refill_rate, elapsed(t.last_refill, now)) > 0 {
                    assert(elapsed(now, now) == 0);
                    assert((#[verifier::truncate] ((0u128 / 1_000_000) as u32)) == 0u32)
                        by (bit_vector);
                }
            }
        }
    }
}

/// However many requests arrive at the same time, a token bucket grants in
/// all at most the tokens it holds once refilled, and so at most its
/// capacity.
pub proof fn burst_bounded_by_capacity(s: BucketState, reqs: Seq<u32>, now: u128)
    requires
        s.tokens <= s.capacity,
    ensures
        burst(s, reqs, now).1 <= s.refilled(now).tokens <= s.capacity,
{
    lemma_burst_conserves(s, reqs, now);
}

/// Over less than 2^32 milliseconds (about 49 days) since the last refill,
/// the milliseconds are taken whole, so the refill due counts the whole
/// seconds elapsed.
proof fn lemma_refill_counts_seconds(rate: u32, e: u128)
    requires
        e < 0x1_0000_0000 * 1_000_000,
    ensures
        refill_amount(rate, e) == (e / 1_000_000_000) * (rate as int),
{
    let ms: u128 = e / 1_000_000;
    assert(ms < 0x1_0000_0000);
    let m: u32 = #[verifier::truncate] (ms as u32);
    assert(m == ms) by (bit_vector)
        requires
            ms < 0x1_0000_0000,
            m == #[verifier::truncate] (ms as u32),
    ;
    vstd::arithmetic::div_mod::lemma_div_denominator(e as int, 1_000_000, 1000);
}

/// Refilling adds the refill rate for each whole second since the last
/// refill, up to the capacity. This holds while less than 2^32 milliseconds
/// (about 49 days) have passed since the last refill; past that the
/// milliseconds wrap around, as `as_millis() as u32` does.
pub proof fn refill_adds_rate_per_second(s: BucketState, now: u128)
    requires
        s.tokens <= s.capacity,
        s.last_refill <= now,
        now - s.last_refill < 0x1_0000_0000 * 1_000_000,
    ensures
        ({
            let due = s.tokens + ((now - s.last_refill) / 1_000_000_000) * s.refill_rate;
            s.refilled(now).tokens == if due < s.capacity {
                due
            } else {
                s.capacity as int
            }
        }),
{
    let e = elapsed(s.last_refill, now);
    lemma_refill_counts_seconds(s.refill_rate, e);
    assert(e == now - s.last_refill);
}

/// Waiting refills the bucket: after acquiring at time `t1`, a request made
/// `k` whole seconds later gets any number of tokens up to both the
/// capacity and `k` times the refill rate (within about 49 days of the last
/// refill, as for `refill_adds_rate_per_second`).
pub proof fn waiting_refills(s: BucketState, n1: u32, t1: u128, k: nat, n: u32, t2: u128)
    requires
        s.tokens <= s.capacity,
        s.last_refill <= t1,
        t1 + k * 1_000_000_000 <= t2,
        t2 - s.last_refill < 0x1_0000_0000 * 1_000_000,
        n <= s.capacity,
        n <= k * s.refill_rate,
    ensures
        s.acquire(n1, t1).0.acquire(n, t2).1,
{
    let s1 = s.acquire(n1, t1).0;
    assert(s1.tokens <= s1.capacity && s1.capacity == s.capacity);
    assert(s1.refill_rate == s.refill_rate);
    assert(s.last_refill <= s1.last_refill <= t1);
    refill_adds_rate_per_second(s1, t2);
    let secs = (t2 - s1.last_refill) / 1_000_000_000;
    assert(k <= secs) by {
        assert(k * 1_000_000_000 <= t2 - s1.last_refill);
        vstd::arithmetic::div_mod::lemma_div_is_ordered(
            (k * 1_000_000_000) as int,
            t2 - s1.last_refill,
            1_000_000_000,
        );
        assert((k * 1_000_000_000) / 1_000_000_000 == k);
    }
    assert(k * s.refill_rate <= secs * s.refill_rate) by (nonlinear_arith)
        requires
            k <= secs,
    ;
}

// ---------------------------------------------------------------------
// Sliding window
// ---------------------------------------------------------------------

/// The times of `ts` that lie less than `window` before `now`, in order.
pub open spec fn recent(ts: Seq<u128>, now: u128, window: u128) -> Seq<u128>
    decreases ts.len(),
{
    if ts.len() == 0 {
        ts
    } else {
        let kept = recent(ts.drop_last(), now, window);
        if elapsed(ts.last(), now) < window {
            kept.push(ts.last())
        } else {
            kept
        }
    }
}

proof fn lemma_recent_len(ts: Seq<u128>, now: u128, window: u128)
    ensures
        recent(ts, now, window).len() <= ts.len(),
    decreases ts.len(),
{
    if ts.len() > 0 {
        lemma_recent_len(ts.drop_last(), now, window);
    }
}

/// A request at time `now` against the logged times `log`: the times older
/// than the window are forgotten, and the request is admitted, and logged,
/// exactly when fewer than `max` remain. Gives the log after, and whether the
/// request was admitted.
pub open spec fn window_admit(log: Seq<u128>, now: u128, window: u128, max: u32) -> (Seq<u128>, bool) {
    let kept = recent(log, now, window);
    if kept.len() < max {
        (kept.push(now), true)
    } else {
        (kept, false)
    }
}

/// Times that all lie a full window or more before `now` are all forgotten.
proof fn lemma_recent_none(ts: Seq<u128>, now: u128, window: u128)
    requires
        forall|i: int| 0 <= i < ts.len() ==> #[trigger] ts[i] + window <= now,
    ensures
        recent(ts, now, window).len() == 0,
    decreases ts.len(),
{
    if ts.len() > 0 {
        assert(ts.last() == ts[ts.len() - 1]);
        assert forall|i: int| 0 <= i < ts.drop_last().len() implies #[trigger] ts.drop_last()[i]
            + window <= now by {
            assert(ts.drop_last()[i] == ts[i]);
        }
        lemma_recent_none(ts.drop_last(), now, window);
    }
}

/// A request made a full window or more after every logged request of its
/// client is admitted, whatever came before, and the client's log then
/// holds that request alone (for a limit that allows any request).
pub proof fn quiet_window_admits(log: Seq<u128>, now: u128, window: u128, max: u32)
    requires
        max > 0,
        forall|i: int| 0 <= i < log.len() ==> #[trigger] log[i] + window <= now,
    ensures
        window_admit(log, now, window, max) == (seq![now], true),
{
    lemma_recent_none(log, now, window);
    assert(recent(log, now, window).push(now) =~= seq![now]);
}

/// The times of `ts` less than `window` before `now`.
fn keep_recent(ts: &Vec<u128>, now: u128, window: u128) -> (kept: Vec<u128>)
    ensures
        kept@ == recent(ts@, now, window),
{
    let mut kept: Vec<u128> = Vec::new();
    let mut i: usize = 0;
    while i < ts.len()
        invariant
            i <= ts@.len(),
            kept@ == recent(ts@.take(i as int), now, window),
        decreases ts@.len() - i,
    {
        let t = ts[i];
        assert(ts@.take(i + 1).drop_last() =~= ts@.take(i as int));
        let age: u128 = if now >= t {
            now - t
        } else {
            0
        };
        if age < window {
            kept.push(t);
        }
        i = i + 1;
    }
    assert(ts@.take(ts@.len() as int) =~= ts@);
    kept
}

/// A `dashmap::DashMap` of admitted request times by client.
pub type RequestLog = DashMap<String, Vec<u128>>;

/// What a `dashmap::DashMap` of request times holds.
pub uninterp spec fn logged_requests(m: RequestLog) -> Map<Seq<char>, Seq<u128>>;

/// No client logged.
pub open spec fn no_log() -> Map<Seq<char>, Seq<u128>> {
    Map::empty()
}

/// `DashMap::new`: an empty map.
#[verifier::external_body]
fn log_new() -> (m: RequestLog)
    ensures
        logged_requests(m) == no_log(),
{
    DashMap::new()
}

/// `DashMap::get`, the times cloned out.
#[verifier::external_body]
fn log_get(m: &RequestLog, key: &str) -> (r: Option<Vec<u128>>)
    ensures
        r is Some <==> logged_requests(*m).contains_key(key@),
        r matches Some(v) ==> v@ == logged_requests(*m)[key@],
{
    m.get(key).map(|v| v.value().clone())
}

/// `DashMap::insert`: stores the times under the key, replacing any others.
/// It does not panic.
#[verifier::external_body]
fn log_insert(m: &mut RequestLog, key: String, times: Vec<u128>)
    ensures
        logged_requests(*final(m)) == logged_requests(*old(m)).insert(key@, times@),
    no_unwind
{
    m.insert(key, times);
}

/// Sliding window rate limiter: each client may make `max_requests`
/// requests within any window of the given length.
pub struct SlidingWindowRateLimiter {
    max_requests: u32,
    window_duration: Duration,
    window_nanos: u128,
    clock: Stopwatch,
    requests: RequestLog,
}

impl SlidingWindowRateLimiter {
    /// Requests allowed per window.
    pub closed spec fn max_requests(&self) -> u32 {
        self.max_requests
    }

    /// The window.
    pub closed spec fn window(&self) -> Duration {
        self.window_duration
    }

    /// Length of the window in nanoseconds.
    pub closed spec fn window_nanos(&self) -> u128 {
        self.window_nanos
    }

    /// The time of the latest reading of the limiter's clock, in nanoseconds
    /// after its creation.
    pub closed spec fn clock_time(&self) -> u128 {
        self.clock.latest()
    }

    /// For each client seen, the times (nanoseconds after the limiter's
    /// creation) of its admitted requests that were still within the window
    /// when it was last looked at.
    pub closed spec fn log(&self) -> Map<Seq<char>, Seq<u128>> {
        logged_requests(self.requests)
    }

    /// No client holds more admitted requests than allowed.
    #[verifier::type_invariant]
    pub closed spec fn bounded(&self) -> bool {
        forall|c: Seq<char>| #[trigger]
            logged_requests(self.requests).contains_key(c) ==> logged_requests(self.requests)[c].len()
                <= self.max_requests
    }

    /// The times logged for `client`, none if it was never seen.
    pub open spec fn times(&self, client: Seq<char>) -> Seq<u128> {
        if self.log().contains_key(client) {
            self.log()[client]
        } else {
            Seq::empty()
        }
    }

    /// The text of the error for a refused request.
    pub open spec fn limit_message(&self) -> Seq<char> {
        "Rate limit exceeded: "@ + decimal(self.max_requests() as nat) + " requests per "@
            + duration_debug(self.window())
    }

    /// Create new sliding window rate limiter
    pub fn new(max_requests: u32, window_duration: Duration) -> (l: Self)
        ensures
            l.max_requests() == max_requests,
            l.window() == window_duration,
            l.window_nanos() == duration_nanos(window_duration),
            l.log() == Map::<Seq<char>, Seq<u128>>::empty(),
            l.clock_time() == 0,
    {
        Self {
            max_requests,
            window_duration,
            window_nanos: nanos_of(&window_duration),
            clock: Stopwatch::start(),
            requests: log_new(),
        }
    }

    /// Logs `times` for `client_id`.
    fn store(&mut self, client_id: &str, times: Vec<u128>)
        requires
            times@.len() <= old(self).max_requests(),
        ensures
            final(self).max_requests() == old(self).max_requests(),
            final(self).window() == old(self).window(),
            final(self).window_nanos() == old(self).window_nanos(),
            final(self).clock_time() == old(self).clock_time(),
            final(self).log() == old(self).log().insert(client_id@, times@),
    {
        proof {
            use_type_invariant(&*self);
        }
        log_insert(&mut self.requests, client_id.to_owned(), times);
    }

    /// The times logged for a client, if it was seen.
    fn logged_times(&self, client_id: &str) -> (r: Option<Vec<u128>>)
        ensures
            r is Some <==> self.log().contains_key(client_id@),
            r matches Some(v) ==> v@ == self.times(client_id@),
    {
        log_get(&self.requests, client_id)
    }

    /// Check, at time `now`, whether a request of `client_id` is allowed.
    /// The client's requests older than the window are forgotten; the
    /// request is admitted, and logged at `now`, exactly when fewer than
    /// `max_requests` remain.
    pub fn allow_request_at(&mut self, client_id: &str, now: u128) -> (r: Result<()>)
        ensures
            final(self).max_requests() == old(self).max_requests(),
            final(self).window() == old(self).window(),
            final(self).window_nanos() == old(self).window_nanos(),
            final(self).clock_time() == old(self).clock_time(),
            ({
                let (after, ok) = window_admit(
                    old(self).times(client_id@),
                    now,
                    old(self).window_nanos(),
                    old(self).max_requests(),
                );
                &&& r is Ok <==> ok
                &&& final(self).log() == old(self).log().insert(client_id@, after)
                &&& r matches Err(e) ==> e matches SdkError::RateLimitExceeded(m) && m@
                    == old(self).limit_message()
            }),
    {
        proof {
            use_type_invariant(&*self);
        }
        let ts = match self.logged_times(client_id) {
            Some(v) => v,
            None => Vec::new(),
        };
        let mut kept = keep_recent(&ts, now, self.window_nanos);
        proof {
            lemma_recent_len(ts@, now, self.window_nanos);
        }
        if (kept.len() as u64) < self.max_requests as u64 {
            kept.push(now);
            self.store(client_id, kept);
            Ok(())
        } else {
            let mut m = String::new();
            append(&mut m, "Rate limit exceeded: ");
            push_decimal(&mut m, self.max_requests as u64);
            append(&mut m, " requests per ");
            let w = debug_text(&self.window_duration);
            append(&mut m, w.as_str());
            self.store(client_id, kept);
            Err(SdkError::RateLimitExceeded(m))
        }
    }

    /// Check if request is allowed now: the limiter's clock is read (a
    /// reading is never below the one before), and the request is judged
    /// at that time.
    pub fn allow_request(&mut self, client_id: &str) -> (r: Result<()>)
        ensures
            final(self).max_requests() == old(self).max_requests(),
            final(self).window() == old(self).window(),
            final(self).window_nanos() == old(self).window_nanos(),
            final(self).clock_time() >= old(self).clock_time(),
            ({
                let (after, ok) = window_admit(
                    old(self).times(client_id@),
                    final(self).clock_time(),
                    old(self).window_nanos(),
                    old(self).max_requests(),
                );
                &&& r is Ok <==> ok
                &&& final(self).log() == old(self).log().insert(client_id@, after)
            }),
            r matches Err(e) ==> e matches SdkError::RateLimitExceeded(m) && m@ == old(
                self,
            ).limit_message(),
    {
        proof {
            use_type_invariant(&*self);
        }
        let mut clock = self.clock;
        let now = clock.read();
        self.clock = clock;
        let r = self.allow_request_at(client_id, now);
        r
    }

    /// Requests that `client_id` may still make at time `now`; the client's
    /// requests older than the window are forgotten.
    pub fn remaining_requests_at(&mut self, client_id: &str, now: u128) -> (n: u32)
        ensures
            final(self).max_requests() == old(self).max_requests(),
            final(self).window() == old(self).window(),
            final(self).window_nanos() == old(self).window_nanos(),
            final(self).clock_time() == old(self).clock_time(),
            ({
                let kept = recent(old(self).times(client_id@), now, old(self).window_nanos());
                &&& n == old(self).max_requests() - kept.len()
                &&& old(self).log().contains_key(client_id@) ==> final(self).log() == old(
                    self,
                ).log().insert(client_id@, kept)
                &&& !old(self).log().contains_key(client_id@) ==> final(self).log() == old(
                    self,
                ).log()
            }),
    {
        proof {
            use_type_invariant(&*self);
        }
        match self.logged_times(client_id) {
            Some(ts) => {
                let kept = keep_recent(&ts, now, self.window_nanos);
                proof {
                    lemma_recent_len(ts@, now, self.window_nanos);
                }
                let n = self.max_requests - kept.len() as u32;
                self.store(client_id, kept);
                n
            },
            None => {
                assert(recent(Seq::<u128>::empty(), now, self.window_nanos).len() == 0);
                self.max_requests
            },
        }
    }

    /// Get remaining requests for client now: the limiter's clock is read
    /// (a reading is never below the one before), and the requests are
    /// counted at that time.
    pub fn remaining_requests(&mut self, client_id: &str) -> (n: u32)
        ensures
            final(self).max_requests() == old(self).max_requests(),
            final(self).window() == old(self).window(),
            final(self).window_nanos() == old(self).window_nanos(),
            final(self).clock_time() >= old(self).clock_time(),
            ({
                let kept = recent(
                    old(self).times(client_id@),
                    final(self).clock_time(),
                    old(self).window_nanos(),
                );
                &&& n == old(self).max_requests() - kept.len()
                &&& old(self).log().contains_key(client_id@) ==> final(self).log() == old(
                    self,
                ).log().insert(client_id@, kept)
                &&& !old(self).log().contains_key(client_id@) ==> final(self).log() == old(
                    self,
                ).log()
            }),
    {
        proof {
            use_type_invariant(&*self);
        }
        let mut clock = self.clock;
        let now = clock.read();
        self.clock = clock;
        let n = self.remaining_requests_at(client_id, now);
        n
    }
}

/// The log and the admitted times after one client's requests at the times
/// `ts`, in order, starting from an empty log.
pub open spec fn admissions(ts: Seq<u128>, window: u128, max: u32) -> (Seq<u128>, Seq<u128>)
    decreases ts.len(),
{
    if ts.len() == 0 {
        (Seq::empty(), Seq::empty())
    } else {
        let (log, admitted) = admissions(ts.drop_last(), window, max);
        let (after, ok) = window_admit(log, ts.last(), window, max);
        (after, if ok {
            admitted.push(ts.last())
        } else {
            admitted
        })
    }
}

/// How many of the times `s` lie in the window that ends at `t`: at or
/// before `t`, and less than `window` before it.
pub open spec fn count_in_window(s: Seq<u128>, t: u128, window: u128) -> nat
    decreases s.len(),
{
    if s.len() == 0 {
        0
    } else {
        count_in_window(s.drop_last(), t, window) + if s.last() <= t && t - s.last() < window {
            1nat
        } else {
            0nat
        }
    }
}

/// No time of `s` comes after `n`.
pub open spec fn all_at_most(s: Seq<u128>, n: u128) -> bool {
    forall|i: int| 0 <= i < s.len() ==> #[trigger] s[i] <= n
}

/// Times never decrease along `ts`.
pub open spec fn nondecreasing(ts: Seq<u128>) -> bool {
    forall|i: int, j: int| 0 <= i <= j < ts.len() ==> ts[i] <= ts[j]
}

proof fn lemma_count_is_recent(s: Seq<u128>, n: u128, window: u128)
    requires
        all_at_most(s, n),
    ensures
        count_in_window(s, n, window) == recent(s, n, window).len(),
    decreases s.len(),
{
    if s.len() > 0 {
        assert(s.last() == s[s.len() - 1]);
        lemma_count_is_recent(s.drop_last(), n, window);
    }
}

proof fn lemma_count_shrinks(s: Seq<u128>, n: u128, t: u128, window: u128)
    requires
        all_at_most(s, n),
        n <= t,
    ensures
        count_in_window(s, t, window) <= count_in_window(s, n, window),
    decreases s.len(),
{
    if s.len() > 0 {
        assert(s.last() == s[s.len() - 1]);
        lemma_count_shrinks(s.drop_last(), n, t, window);
    }
}

proof fn lemma_count_below(s: Seq<u128>, x: u128, t: u128, window: u128)
    requires
        t < x,
    ensures
        count_in_window(s.push(x), t, window) == count_in_window(s, t, window),
{
    assert(s.push(x).drop_last() =~= s);
}

proof fn lemma_recent_twice(s: Seq<u128>, n1: u128, n2: u128, window: u128)
    requires
        all_at_most(s, n1),
        n1 <= n2,
    ensures
        recent(recent(s, n1, window), n2, window) == recent(s, n2, window),
    decreases s.len(),
{
    if s.len() > 0 {
        let x = s.last();
        let q = s.drop_last();
        assert(x == s[s.len() - 1]);
        lemma_recent_twice(q, n1, n2, window);
        let r1 = recent(q, n1, window);
        if elapsed(x, n1) < window {
            assert(r1.push(x).drop_last() =~= r1);
        }
    }
}

proof fn lemma_admissions(ts: Seq<u128>, window: u128, max: u32)
    requires
        window > 0,
        nondecreasing(ts),
    ensures
        ts.len() > 0 ==> admissions(ts, window, max).0 == recent(
            admissions(ts, window, max).1,
            ts.last(),
            window,
        ),
        ts.len() > 0 ==> all_at_most(admissions(ts, window, max).1, ts.last()),
        ts.len() == 0 ==> admissions(ts, window, max).0.len() == 0 && admissions(
            ts,
            window,
            max,
        ).1.len() == 0,
        forall|t: u128| #[trigger] count_in_window(admissions(ts, window, max).1, t, window) <= max,
    decreases ts.len(),
{
    if ts.len() > 0 {
        let p = ts.drop_last();
        let n = ts.last();
        assert(n == ts[ts.len() - 1]);
        assert(nondecreasing(p));
        lemma_admissions(p, window, max);
        let (log, a) = admissions(p, window, max);
        if p.len() > 0 {
            assert(p.last() == ts[p.len() - 1]);
            assert(p.last() <= n);
        }
        assert(all_at_most(a, n)) by {
            if p.len() > 0 {
                assert forall|i: int| 0 <= i < a.len() implies #[trigger] a[i] <= n by {
                    assert(a[i] <= p.last());
                }
            }
        }
        let kept = recent(log, n, window);
        assert(kept == recent(a, n, window)) by {
            if p.len() > 0 {
                lemma_recent_twice(a, p.last(), n, window);
            } else {
                assert(log.len() == 0 && a.len() == 0);
                assert(log =~= a);
            }
        }
        lemma_count_is_recent(a, n, window);
        if kept.len() < max {
            let a2 = a.push(n);
            assert(a2.drop_last() =~= a);
            assert(a2.last() == n);
            assert(elapsed(n, n) == 0);
            assert(admissions(ts, window, max).1 == a2);
            assert(recent(a2, n, window) =~= kept.push(n));
            assert forall|i: int| 0 <= i < a2.len() implies #[trigger] a2[i] <= n by {
                if i < a.len() {
                    assert(a2[i] == a[i]);
                }
            }
            assert forall|t: u128| #[trigger] count_in_window(a2, t, window) <= max by {
                if t < n {
                    lemma_count_below(a, n, t, window);
                } else {
                    lemma_count_shrinks(a, n, t, window);
                    assert(count_in_window(a2, t, window) <= count_in_window(a, t, window) + 1);
                }
            }
        } else {
            assert(admissions(ts, window, max).1 == a);
        }
    }
}

/// A sliding window limiter never admits more than `max` requests of one
/// client within any window: for requests made at times that never go back,
/// at most `max` of the admitted ones lie in the window that ends at any time
/// `t`.
pub proof fn window_never_overfilled(ts: Seq<u128>, window: u128, max: u32, t: u128)
    requires
        nondecreasing(ts),
    ensures
        count_in_window(admissions(ts, window, max).1, t, window) <= max,
{
    if window > 0 {
        lemma_admissions(ts, window, max);
    } else {
        lemma_count_zero_window(admissions(ts, window, max).1, t);
    }
}

proof fn lemma_count_zero_window(s: Seq<u128>, t: u128)
    ensures
        count_in_window(s, t, 0) == 0,
    decreases s.len(),
{
    if s.len() > 0 {
        lemma_count_zero_window(s.drop_last(), t);
    }
}

// ---------------------------------------------------------------------
// Per-user limiter
// ---------------------------------------------------------------------

/// A `dashmap::DashMap` of token buckets by user.
pub type UserBuckets = DashMap<String, TokenBucket>;

/// What a `dashmap::DashMap` of token buckets holds: each user's bucket.
pub uninterp spec fn user_buckets(m: UserBuckets) -> Map<Seq<char>, BucketState>;

/// No user's bucket.
pub open spec fn no_buckets() -> Map<Seq<char>, BucketState> {
    Map::empty()
}

/// `DashMap::new`: an empty map.
#[verifier::external_body]
fn buckets_new() -> (m: UserBuckets)
    ensures
        user_buckets(m) == no_buckets(),
{
    DashMap::new()
}

/// `DashMap::remove`: takes the user's bucket out of the map, if there is one.
#[verifier::external_body]
fn buckets_take(m: &mut UserBuckets, key: &str) -> (r: Option<TokenBucket>)
    ensures
        r is Some <==> user_buckets(*old(m)).contains_key(key@),
        r matches Some(b) ==> b@ == user_buckets(*old(m))[key@],
        user_buckets(*final(m)) == user_buckets(*old(m)).remove(key@),
{
    m.remove(key).map(|(_, b)| b)
}

/// `DashMap::insert`: stores the bucket under the user, replacing any other.
#[verifier::external_body]
fn buckets_insert(m: &mut UserBuckets, key: String, b: TokenBucket)
    ensures
        user_buckets(*final(m)) == user_buckets(*old(m)).insert(key@, b@),
{
    m.insert(key, b);
}

/// `DashMap::get`, giving the tokens of the user's bucket.
#[verifier::external_body]
fn buckets_tokens(m: &UserBuckets, key: &str) -> (r: Option<u32>)
    ensures
        r is Some <==> user_buckets(*m).contains_key(key@),
        r matches Some(t) ==> t == user_buckets(*m)[key@].tokens,
{
    m.get(key).map(|b| b.tokens)
}

/// Per-user rate limiter: a token bucket for each user, created full on
/// first use. Times are nanoseconds after the limiter's creation.
pub struct PerUserRateLimiter {
    limiters: UserBuckets,
    capacity: u32,
    refill_rate: u32,
    clock: Stopwatch,
}

impl PerUserRateLimiter {
    /// Capacity of each user's bucket.
    pub closed spec fn capacity(&self) -> u32 {
        self.capacity
    }

    /// Refill rate of each user's bucket.
    pub closed spec fn refill_rate(&self) -> u32 {
        self.refill_rate
    }

    /// The time of the latest reading of the limiter's clock, in nanoseconds
    /// after its creation.
    pub closed spec fn clock_time(&self) -> u128 {
        self.clock.latest()
    }

    /// The bucket of each user seen so far.
    pub closed spec fn buckets(&self) -> Map<Seq<char>, BucketState> {
        user_buckets(self.limiters)
    }

    /// The bucket that a request of `user` at time `now` draws from: its
    /// own, or one made full at that time.
    pub open spec fn bucket_at(&self, user: Seq<char>, now: u128) -> BucketState {
        if self.buckets().contains_key(user) {
            self.buckets()[user]
        } else {
            BucketState::fresh_at(self.capacity(), self.refill_rate(), now)
        }
    }

    /// Create new per-user rate limiter
    pub fn new(capacity: u32, refill_rate: u32) -> (l: Self)
        ensures
            l.capacity() == capacity,
            l.refill_rate() == refill_rate,
            l.buckets() == Map::<Seq<char>, BucketState>::empty(),
            l.clock_time() == 0,
    {
        Self { limiters: buckets_new(), capacity, refill_rate, clock: Stopwatch::start() }
    }

    /// Try to acquire tokens for user at time `now` from the user's own
    /// bucket (made full at `now` on the user's first request); the buckets
    /// of other users are left as they were.
    pub fn try_acquire_at(&mut self, user_id: &str, tokens: u32, now: u128) -> (r: Result<()>)
        ensures
            final(self).capacity() == old(self).capacity(),
            final(self).refill_rate() == old(self).refill_rate(),
            final(self).clock_time() == old(self).clock_time(),
            ({
                let (b, ok) = old(self).bucket_at(user_id@, now).acquire(tokens, now);
                &&& (r is Ok) == ok
                &&& final(self).buckets() == old(self).buckets().insert(user_id@, b)
                &&& r matches Err(e) ==> e matches SdkError::RateLimitExceeded(m) && m@
                    == BucketState::shortage_message(
                    tokens,
                    old(self).bucket_at(user_id@, now).refilled(now).tokens,
                )
            }),
    {
        let (key, mut bucket) = match buckets_take(&mut self.limiters, user_id) {
            Some(b) => (user_id.to_owned(), b),
            None => (
                user_id.to_owned(),
                TokenBucket::full_at(self.capacity, self.refill_rate, self.clock, now),
            ),
        };
        assert(bucket@ == old(self).bucket_at(user_id@, now));
        let r = bucket.try_acquire_at(tokens, now);
        buckets_insert(&mut self.limiters, key, bucket);
        assert(self.buckets() =~= old(self).buckets().insert(user_id@, bucket@));
        r
    }

    /// Try to acquire tokens for user now: the limiter's clock is read (a
    /// reading is never below the one before), and the tokens are acquired
    /// at that time.
    pub fn try_acquire(&mut self, user_id: &str, tokens: u32) -> (r: Result<()>)
        ensures
            final(self).capacity() == old(self).capacity(),
            final(self).refill_rate() == old(self).refill_rate(),
            final(self).clock_time() >= old(self).clock_time(),
            ({
                let now = final(self).clock_time();
                let (b, ok) = old(self).bucket_at(user_id@, now).acquire(tokens, now);
                &&& (r is Ok) == ok
                &&& final(self).buckets() == old(self).buckets().insert(user_id@, b)
                &&& r matches Err(e) ==> e matches SdkError::RateLimitExceeded(m) && m@
                    == BucketState::shortage_message(
                    tokens,
                    old(self).bucket_at(user_id@, now).refilled(now).tokens,
                )
            }),
    {
        let now = self.clock.read();
        self.try_acquire_at(user_id, tokens, now)
    }

    /// Get current tokens for user: those of the user's bucket, or the
    /// capacity for a user not seen yet.
    pub fn current_tokens(&self, user_id: &str) -> (n: u32)
        ensures
            n == if self.buckets().contains_key(user_id@) {
                self.buckets()[user_id@].tokens
            } else {
                self.capacity()
            },
    {
        match buckets_tokens(&self.limiters, user_id) {
            Some(t) => t,
            None => self.capacity,
        }
    }
}

/// Waiting refills each user's bucket: after a request of `user` at time
/// `t1`, a request of the same user `k` whole seconds later gets any number
/// of tokens up to both the bucket's capacity and `k` times its refill rate
/// (within about 49 days of the bucket's last refill).
pub proof fn user_waiting_refills(
    before: PerUserRateLimiter,
    after: PerUserRateLimiter,
    user: Seq<char>,
    n1: u32,
    t1: u128,
    k: nat,
    n: u32,
    t2: u128,
)
    requires
        after.buckets() == before.buckets().insert(
            user,
            before.bucket_at(user, t1).acquire(n1, t1).0,
        ),
        before.bucket_at(user, t1).tokens <= before.bucket_at(user, t1).capacity,
        before.bucket_at(user, t1).last_refill <= t1,
        t1 + k * 1_000_000_000 <= t2,
        t2 - before.bucket_at(user, t1).last_refill < 0x1_0000_0000 * 1_000_000,
        n <= before.bucket_at(user, t1).capacity,
        n <= k * before.bucket_at(user, t1).refill_rate,
    ensures
        after.bucket_at(user, t2).acquire(n, t2).1,
{
    waiting_refills(before.bucket_at(user, t1), n1, t1, k, n, t2);
}

/// A request of one user never changes the bucket of another: what any
/// other user can draw is what it could draw before.
pub proof fn users_are_isolated(
    before: PerUserRateLimiter,
    after: PerUserRateLimiter,
    user: Seq<char>,
    bucket: BucketState,
    other: Seq<char>,
)
    requires
        after.capacity() == before.capacity(),
        after.refill_rate() == before.refill_rate(),
        after.buckets() == before.buckets().insert(user, bucket),
        other != user,
    ensures
        forall|now: u128| #[trigger] after.bucket_at(other, now) == before.bucket_at(other, now),
{
}

} // verus!
