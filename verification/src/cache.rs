//! In-memory cache of serialized values with a time to live.
//!
//! Values are kept as the bytes of their serialization; expiry times are
//! nanoseconds since the Unix epoch on the UTC wall clock. The operations
//! that look at the clock keep the reading they took, and their contracts
//! state the outcome at that reading; their counterparts (`..._at`) take the
//! time as an argument and leave the reading alone.

use vstd::prelude::*;

use crate::clock::WallClock;
use crate::lru_list::{
    distinct_keys, has_key, has_key_at, LruStore, lru_capacity, lru_clear, lru_entries, lru_get, lru_len,
    lru_new, lru_pop, lru_put,
};
use dashmap::DashMap;


verus! {

/// A stored value and the time after which it has expired.
#[derive(Clone)]
pub struct CacheEntry {
    value: Vec<u8>,
    expires_at: i128,
}

impl View for CacheEntry {
    type V = (Seq<u8>, i128);

    closed spec fn view(&self) -> (Seq<u8>, i128) {
        (self.value@, self.expires_at)
    }
}

/// An entry has expired once the time is past its expiry time.
pub open spec fn expired(entry: (Seq<u8>, i128), now: i128) -> bool {
    now > entry.1
}

/// The bytes of an optional value.
pub open spec fn bytes_of(r: Option<Vec<u8>>) -> Option<Seq<u8>> {
    match r {
        Some(v) => Some(v@),
        None => None,
    }
}

/// The entries of `m` that have not expired at time `now`.
pub open spec fn unexpired(m: Map<Seq<char>, (Seq<u8>, i128)>, now: i128) -> Map<
    Seq<char>,
    (Seq<u8>, i128),
> {
    m.restrict(m.dom().filter(|k: Seq<char>| !expired(m[k], now)))
}

/// Most seconds of time to live that `chrono::Duration::seconds` accepts.
pub open spec fn max_ttl_secs() -> int {
    i64::MAX / 1000
}

/// A concurrent hash map of the `dashmap` crate, held opaquely.
#[verifier::external_type_specification]
#[verifier::external_body]
#[verifier::reject_recursive_types(K)]
#[verifier::reject_recursive_types(V)]
#[verifier::reject_recursive_types(S)]
pub struct ExDashMap<K, V, S>(DashMap<K, V, S>);

/// A `dashmap::DashMap` of cache entries by key.
pub type CacheSlots = DashMap<String, CacheEntry>;

/// What a `dashmap::DashMap` of cache entries holds: each key's value and
/// expiry time.
pub uninterp spec fn cache_slots(m: CacheSlots) -> Map<Seq<char>, (Seq<u8>, i128)>;

/// No entry at all.
pub open spec fn no_entries() -> Map<Seq<char>, (Seq<u8>, i128)> {
    Map::empty()
}

/// `DashMap::new`: an empty map.
#[verifier::external_body]
fn slots_new() -> (m: CacheSlots)
    ensures
        cache_slots(m) == no_entries(),
{
    DashMap::new()
}

/// `DashMap::len`: the number of keys.
#[verifier::external_body]
fn slots_len(m: &CacheSlots) -> (n: usize)
    ensures
        n == cache_slots(*m).len(),
{
    m.len()
}

/// `DashMap::contains_key`.
#[verifier::external_body]
fn slots_contains(m: &CacheSlots, key: &str) -> (b: bool)
    ensures
        b == cache_slots(*m).contains_key(key@),
{
    m.contains_key(key)
}

/// `DashMap::get`, the entry cloned out.
#[verifier::external_body]
fn slots_get(m: &CacheSlots, key: &str) -> (r: Option<CacheEntry>)
    ensures
        r is Some <==> cache_slots(*m).contains_key(key@),
        r matches Some(e) ==> e@ == cache_slots(*m)[key@],
{
    m.get(key).map(|e| e.value().clone())
}

/// `DashMap::insert`: stores the entry under the key, replacing any other.
/// It does not panic.
#[verifier::external_body]
fn slots_insert(m: &mut CacheSlots, key: String, entry: CacheEntry)
    ensures
        cache_slots(*final(m)) == cache_slots(*old(m)).insert(key@, entry@),
    no_unwind
{
    m.insert(key, entry);
}

/// `DashMap::remove`: drops the entry under the key, if any. It does not
/// panic.
#[verifier::external_body]
fn slots_remove(m: &mut CacheSlots, key: &str)
    ensures
        cache_slots(*final(m)) == cache_slots(*old(m)).remove(key@),
    no_unwind
{
    m.remove(key);
}

/// `DashMap::clear`: drops every entry. It does not panic.
#[verifier::external_body]
fn slots_clear(m: &mut CacheSlots)
    ensures
        cache_slots(*final(m)) == no_entries(),
    no_unwind
{
    m.clear();
}

/// The keys of a `DashMap`, each once (`iter` with each entry's key
/// cloned), in the map's own order.
#[verifier::external_body]
fn slots_keys(m: &CacheSlots) -> (ks: Vec<String>)
    ensures
        ks@.len() == cache_slots(*m).len(),
        forall|i: int| 0 <= i < ks@.len() ==> #[trigger] cache_slots(*m).contains_key(ks@[i]@),
        forall|k: Seq<char>| #[trigger]
            cache_slots(*m).contains_key(k) ==> exists|i: int| 0 <= i < ks@.len() && ks@[i]@ == k,
        forall|i: int, j: int|
            0 <= i < ks@.len() && 0 <= j < ks@.len() && i != j ==> #[trigger] ks@[i]@
                != #[trigger] ks@[j]@,
{
    m.iter().map(|e| e.key().clone()).collect()
}

/// The key of the first entry that iterating a `DashMap` meets, if any.
#[verifier::external_body]
fn slots_first_key(m: &CacheSlots) -> (r: Option<String>)
    ensures
        r matches Some(k) ==> cache_slots(*m).contains_key(k@),
        r is None ==> cache_slots(*m).dom() =~= Set::<Seq<char>>::empty(),
{
    m.iter().next().map(|e| e.key().clone())
}

/// In-memory cache with TTL support
pub struct Cache {
    storage: CacheSlots,
    max_entries: usize,
    ttl_nanos: i128,
    clock: WallClock,
}

impl Cache {
    /// The stored values and their expiry times, by key.
    pub closed spec fn entries(&self) -> Map<Seq<char>, (Seq<u8>, i128)> {
        cache_slots(self.storage)
    }

    /// Number of entries at which a new value first makes room by evicting one.
    pub closed spec fn max_entries(&self) -> usize {
        self.max_entries
    }

    /// Time to live of a value, in nanoseconds.
    pub closed spec fn ttl_nanos(&self) -> i128 {
        self.ttl_nanos
    }

    /// The latest reading of the UTC clock that the cache took, in
    /// nanoseconds since the Unix epoch.
    pub closed spec fn clock_time(&self) -> i128 {
        self.clock.latest()
    }

    /// The time to live lies within what `chrono::Duration` holds, and
    /// finitely many keys are stored.
    #[verifier::type_invariant]
    closed spec fn well_formed(&self) -> bool {
        &&& -10_000_000_000_000_000_000_000_000 <= self.ttl_nanos <= 10_000_000_000_000_000_000_000_000
        &&& cache_slots(self.storage).dom().finite()
    }

    /// Create a new cache. `ttl_seconds`, taken as an `i64` (wrapping as
    /// `as` does), must lie where `chrono::Duration::seconds` accepts it.
    pub fn new(max_entries: usize, ttl_seconds: u64) -> (c: Self)
        requires
            -max_ttl_secs() <= (ttl_seconds as i64) <= max_ttl_secs(),
        ensures
            c.entries() == Map::<Seq<char>, (Seq<u8>, i128)>::empty(),
            c.max_entries() == max_entries,
            c.ttl_nanos() == (ttl_seconds as i64) as int * 1_000_000_000,
            -10_000_000_000_000_000_000_000_000 <= c.ttl_nanos() <= 10_000_000_000_000_000_000_000_000,
    {
        let secs = ttl_seconds as i64;
        Self {
            storage: slots_new(),
            max_entries,
            ttl_nanos: secs as i128 * 1_000_000_000,
            clock: WallClock::start(),
        }
    }

    /// What reading `key` at time `now` gives, and the entries after it: an
    /// expired entry is removed and gives nothing.
    pub open spec fn fetched(&self, key: Seq<char>, now: i128) -> (
        Option<Seq<u8>>,
        Map<Seq<char>, (Seq<u8>, i128)>,
    ) {
        let m = self.entries();
        if m.contains_key(key) && !expired(m[key], now) {
            (Some(m[key].0), m)
        } else {
            (None, m.remove(key))
        }
    }

    /// Get the stored bytes at time `now`; an expired entry is removed and
    /// gives nothing.
    pub fn get_at(&mut self, key: &str, now: i128) -> (r: Option<Vec<u8>>)
        ensures
            final(self).max_entries() == old(self).max_entries(),
            final(self).ttl_nanos() == old(self).ttl_nanos(),
            final(self).clock_time() == old(self).clock_time(),
            (bytes_of(r), final(self).entries()) == old(self).fetched(key@, now),
    {
        proof {
            use_type_invariant(&*self);
        }
        match slots_get(&self.storage, key) {
            Some(entry) => {
                if now > entry.expires_at {
                    slots_remove(&mut self.storage, key);
                    None
                } else {
                    Some(entry.value)
                }
            },
            None => {
                assert(old(self).entries().remove(key@) =~= old(self).entries());
                None
            },
        }
    }

    /// Get the stored bytes, unless they have expired: the UTC clock is
    /// read, and the entry is judged at that time.
    pub fn get(&mut self, key: &str) -> (r: Option<Vec<u8>>)
        ensures
            final(self).max_entries() == old(self).max_entries(),
            final(self).ttl_nanos() == old(self).ttl_nanos(),
            old(self).fetched(key@, final(self).clock_time()) == (bytes_of(r), final(self).entries()),
    {
        proof {
            use_type_invariant(&*self);
        }
        let mut clock = self.clock;
        let now = clock.read();
        self.clock = clock;
        let r = self.get_at(key, now);
        r
    }

    /// Whether the entries after storing `value` under `key` at time `now`
    /// are as `set_at` makes them: when the cache holds `max_entries` or more
    /// entries, one of them (any) is evicted first.
    pub open spec fn stored(
        &self,
        key: Seq<char>,
        value: Seq<u8>,
        now: i128,
        after: Map<Seq<char>, (Seq<u8>, i128)>,
    ) -> bool {
        let m = self.entries();
        let entry = (value, (now + self.ttl_nanos()) as i128);
        if m.len() >= self.max_entries() && m.len() > 0 {
            exists|k: Seq<char>| #[trigger]
                m.contains_key(k) && after == m.remove(k).insert(key, entry)
        } else {
            after == m.insert(key, entry)
        }
    }

    /// Set value (its serialized bytes) at time `now`; it expires after the
    /// time to live.
    pub fn set_at(&mut self, key: &str, value: Vec<u8>, now: i128)
        requires
            i128::MIN <= now + old(self).ttl_nanos() <= i128::MAX,
        ensures
            final(self).max_entries() == old(self).max_entries(),
            final(self).ttl_nanos() == old(self).ttl_nanos(),
            final(self).clock_time() == old(self).clock_time(),
            old(self).stored(key@, value@, now, final(self).entries()),
    {
        proof {
            use_type_invariant(&*self);
        }
        let ghost m = old(self).entries();
        let n = slots_len(&self.storage);
        if n >= self.max_entries && n > 0 {
            match slots_first_key(&self.storage) {
                Some(k0) => {
                    slots_remove(&mut self.storage, k0.as_str());
                    assert(m.contains_key(k0@));
                },
                None => {
                    assert(m.dom().len() == 0);
                },
            }
        }
        let ghost mid = self.entries();
        let ghost v = value@;
        let expires_at = now + self.ttl_nanos;
        let entry = CacheEntry { value, expires_at };
        assert(entry@ == (v, expires_at));
        slots_insert(&mut self.storage, key.to_owned(), entry);
    }

    /// Set value (its serialized bytes); it expires after the time to live,
    /// counted from a reading of the UTC clock taken now.
    pub fn set(&mut self, key: &str, value: Vec<u8>)
        ensures
            final(self).max_entries() == old(self).max_entries(),
            final(self).ttl_nanos() == old(self).ttl_nanos(),
            old(self).stored(key@, value@, final(self).clock_time(), final(self).entries()),
    {
        proof {
            use_type_invariant(&*self);
        }
        let mut clock = self.clock;
        let now = clock.read();
        self.clock = clock;
        self.set_at(key, value, now);
    }

    /// Remove value from cache
    pub fn remove(&mut self, key: &str)
        ensures
            final(self).entries() == old(self).entries().remove(key@),
            final(self).max_entries() == old(self).max_entries(),
            final(self).ttl_nanos() == old(self).ttl_nanos(),
    {
        proof {
            use_type_invariant(&*self);
        }
        slots_remove(&mut self.storage, key);
    }

    /// Clear all cache
    pub fn clear(&mut self)
        ensures
            final(self).entries() == Map::<Seq<char>, (Seq<u8>, i128)>::empty(),
            final(self).max_entries() == old(self).max_entries(),
            final(self).ttl_nanos() == old(self).ttl_nanos(),
    {
        proof {
            use_type_invariant(&*self);
        }
        slots_clear(&mut self.storage);
    }

    /// Get cache size (expired entries not yet removed included)
    pub fn size(&self) -> (n: usize)
        ensures
            n == self.entries().len(),
            self.entries().dom().finite(),
    {
        proof {
            use_type_invariant(self);
        }
        slots_len(&self.storage)
    }

    /// Check if key exists (whether or not it has expired)
    pub fn contains_key(&self, key: &str) -> (b: bool)
        ensures
            b == self.entries().contains_key(key@),
    {
        slots_contains(&self.storage, key)
    }

    /// Get all keys, each once, in no particular order.
    pub fn keys(&self) -> (r: Vec<String>)
        ensures
            r@.len() == self.entries().len(),
            forall|i: int| 0 <= i < r@.len() ==> #[trigger] self.entries().contains_key(r@[i]@),
            forall|k: Seq<char>| #[trigger]
                self.entries().contains_key(k) ==> exists|i: int| 0 <= i < r@.len() && r@[i]@ == k,
            forall|i: int, j: int|
                0 <= i < r@.len() && 0 <= j < r@.len() && i != j ==> #[trigger] r@[i]@
                    != #[trigger] r@[j]@,
    {
        slots_keys(&self.storage)
    }

    /// Remove the entries that have expired at time `now`.
    pub fn cleanup_expired_at(&mut self, now: i128)
        ensures
            final(self).entries() == unexpired(old(self).entries(), now),
            final(self).max_entries() == old(self).max_entries(),
            final(self).ttl_nanos() == old(self).ttl_nanos(),
            final(self).clock_time() == old(self).clock_time(),
    {
        proof {
            use_type_invariant(&*self);
        }
        let ghost m = old(self).entries();
        let keys = slots_keys(&self.storage);
        let n = keys.len();
        let mut i: usize = 0;
        while i < n
            invariant
                i <= n == keys@.len(),
                self.max_entries == old(self).max_entries(),
                self.ttl_nanos == old(self).ttl_nanos(),
                self.clock == old(self).clock,
                -10_000_000_000_000_000_000_000_000 <= self.ttl_nanos
                    <= 10_000_000_000_000_000_000_000_000,
                forall|a: int| 0 <= a < keys@.len() ==> #[trigger] m.contains_key(keys@[a]@),
                forall|a: int, b: int|
                    0 <= a < keys@.len() && 0 <= b < keys@.len() && a != b ==> #[trigger] keys@[a]@
                        != #[trigger] keys@[b]@,
                m.dom().finite(),
                self.entries().dom().finite(),
                self.entries() == m.restrict(
                    m.dom().filter(
                        |k: Seq<char>|
                            !(exists|a: int| 0 <= a < i && keys@[a]@ == k && expired(m[k], now)),
                    ),
                ),
            decreases n - i,
        {
            let key = &keys[i];
            let ghost before = self.entries();
            let ghost s_before = m.dom().filter(
                |k: Seq<char>| !(exists|a: int| 0 <= a < i && keys@[a]@ == k && expired(m[k], now)),
            );
            let ghost s_after = m.dom().filter(
                |k: Seq<char>|
                    !(exists|a: int| 0 <= a < i + 1 && keys@[a]@ == k && expired(m[k], now)),
            );
            assert(s_before.contains(key@)) by {
                assert(m.contains_key(keys@[i as int]@));
                if exists|a: int| 0 <= a < i && keys@[a]@ == key@ && expired(m[key@], now) {
                    let a = choose|a: int| 0 <= a < i && keys@[a]@ == key@ && expired(m[key@], now);
                    assert(keys@[a]@ != keys@[i as int]@);
                }
            }
            match slots_get(&self.storage, key.as_str()) {
                Some(entry) => {
                    assert(entry@ == m[key@]);
                    if now > entry.expires_at {
                        slots_remove(&mut self.storage, key.as_str());
                        assert(s_after =~= s_before.remove(key@));
                        assert(self.entries() =~= m.restrict(s_after));
                    } else {
                        assert(s_after =~= s_before);
                    }
                },
                None => {
                    assert(false);
                },
            }
            i = i + 1;
        }
        assert(m.dom().filter(
            |k: Seq<char>| !(exists|a: int| 0 <= a < n && keys@[a]@ == k && expired(m[k], now)),
        ) =~= m.dom().filter(|k: Seq<char>| !expired(m[k], now))) by {
            assert forall|k: Seq<char>| m.dom().contains(k) && !expired(m[k], now) implies !(exists|
                a: int,
            | 0 <= a < n && keys@[a]@ == k && expired(m[k], now)) by {}
            assert forall|k: Seq<char>| m.dom().contains(k) && expired(m[k], now) implies (exists|
                a: int,
            | 0 <= a < n && keys@[a]@ == k && expired(m[k], now)) by {
                assert(old(self).entries().contains_key(k));
            }
        }
    }

    /// Remove expired entries, judged at a reading of the UTC clock taken
    /// now.
    pub fn cleanup_expired(&mut self)
        ensures
            final(self).max_entries() == old(self).max_entries(),
            final(self).ttl_nanos() == old(self).ttl_nanos(),
            unexpired(old(self).entries(), final(self).clock_time()) == final(self).entries(),
    {
        proof {
            use_type_invariant(&*self);
        }
        let mut clock = self.clock;
        let now = clock.read();
        self.clock = clock;
        self.cleanup_expired_at(now);
    }
}

// ---------------------------------------------------------------------
// LRU cache
// ---------------------------------------------------------------------

/// Index of the entry with key `k`, when there is one.
pub open spec fn key_index(e: Seq<(Seq<char>, Seq<u8>)>, k: Seq<char>) -> int {
    choose|i: int| has_key_at(e, k, i)
}

/// The entries without the one under `k`.
pub open spec fn without_key(e: Seq<(Seq<char>, Seq<u8>)>, k: Seq<char>) -> Seq<
    (Seq<char>, Seq<u8>),
> {
    if has_key(e, k) {
        e.remove(key_index(e, k))
    } else {
        e
    }
}

/// A `dashmap::DashMap` of expiry times by key.
pub type ExpirySlots = DashMap<String, i128>;

/// What a `dashmap::DashMap` of expiry times holds.
pub uninterp spec fn expiry_slots(m: ExpirySlots) -> Map<Seq<char>, i128>;

/// No expiry time at all.
pub open spec fn no_expiries() -> Map<Seq<char>, i128> {
    Map::empty()
}

/// `DashMap::new`: an empty map.
#[verifier::external_body]
fn expiries_new() -> (m: ExpirySlots)
    ensures
        expiry_slots(m) == no_expiries(),
{
    DashMap::new()
}

/// `DashMap::get`, the time copied out.
#[verifier::external_body]
fn expiries_get(m: &ExpirySlots, key: &str) -> (r: Option<i128>)
    ensures
        r is Some <==> expiry_slots(*m).contains_key(key@),
        r matches Some(t) ==> t == expiry_slots(*m)[key@],
{
    m.get(key).map(|t| *t.value())
}

/// `DashMap::insert`: stores the time under the key, replacing any other.
/// It does not panic.
#[verifier::external_body]
fn expiries_insert(m: &mut ExpirySlots, key: String, t: i128)
    ensures
        expiry_slots(*final(m)) == expiry_slots(*old(m)).insert(key@, t),
    no_unwind
{
    m.insert(key, t);
}

/// `DashMap::remove`: drops the time under the key, if any. It does not
/// panic.
#[verifier::external_body]
fn expiries_remove(m: &mut ExpirySlots, key: &str)
    ensures
        expiry_slots(*final(m)) == expiry_slots(*old(m)).remove(key@),
    no_unwind
{
    m.remove(key);
}

/// `DashMap::clear`: drops every time. It does not panic.
#[verifier::external_body]
fn expiries_clear(m: &mut ExpirySlots)
    ensures
        expiry_slots(*final(m)) == no_expiries(),
    no_unwind
{
    m.clear();
}

/// LRU cache of serialized values with a time to live.
pub struct LruCache {
    cache: LruStore,
    ttl_nanos: i128,
    expires: ExpirySlots,
    clock: WallClock,
}

impl LruCache {
    /// The stored values, most recently used first.
    pub closed spec fn entries(&self) -> Seq<(Seq<char>, Seq<u8>)> {
        lru_entries(self.cache)
    }

    /// Most values held at once.
    pub closed spec fn capacity(&self) -> nat {
        lru_capacity(self.cache)
    }

    /// The expiry time recorded for each key set (kept until the key is
    /// removed, also when the value itself was dropped to make room).
    pub closed spec fn expiries(&self) -> Map<Seq<char>, i128> {
        expiry_slots(self.expires)
    }

    /// Time to live of a value, in nanoseconds.
    pub closed spec fn ttl_nanos(&self) -> i128 {
        self.ttl_nanos
    }

    /// The latest reading of the UTC clock that the cache took, in
    /// nanoseconds since the Unix epoch.
    pub closed spec fn clock_time(&self) -> i128 {
        self.clock.latest()
    }

    /// The time to live lies within what `chrono::Duration` holds.
    #[verifier::type_invariant]
    closed spec fn ttl_in_range(&self) -> bool {
        -10_000_000_000_000_000_000_000_000 <= self.ttl_nanos <= 10_000_000_000_000_000_000_000_000
    }

    /// What reading `key` at time `now` gives, and the entries and expiry
    /// times after it: a key whose expiry time has passed is removed and
    /// gives nothing; a value found becomes the most recently used.
    pub open spec fn fetched(&self, key: Seq<char>, now: i128) -> (
        Option<Seq<u8>>,
        Seq<(Seq<char>, Seq<u8>)>,
        Map<Seq<char>, i128>,
    ) {
        let e = self.entries();
        let x = self.expiries();
        if x.contains_key(key) && now > x[key] {
            (None, without_key(e, key), x.remove(key))
        } else if has_key(e, key) {
            let i = key_index(e, key);
            (Some(e[i].1), seq![e[i]] + e.remove(i), x)
        } else {
            (None, e, x)
        }
    }

    /// The entries and expiry times after setting `value` under `key` at
    /// time `now`: it becomes the most recently used, expiring after the time
    /// to live; a new key finding the cache full drops the least recently
    /// used value.
    pub open spec fn stored(&self, key: Seq<char>, value: Seq<u8>, now: i128) -> (
        Seq<(Seq<char>, Seq<u8>)>,
        Map<Seq<char>, i128>,
    ) {
        let e = self.entries();
        let rest = if has_key(e, key) {
            without_key(e, key)
        } else if e.len() == self.capacity() {
            e.drop_last()
        } else {
            e
        };
        (seq![(key, value)] + rest, self.expiries().insert(key, (now + self.ttl_nanos()) as i128))
    }

    /// Create new LRU cache
    pub fn new(capacity: usize, ttl_seconds: u64) -> (c: Self)
        requires
            capacity > 0,
            -max_ttl_secs() <= (ttl_seconds as i64) <= max_ttl_secs(),
        ensures
            c.entries() == Seq::<(Seq<char>, Seq<u8>)>::empty(),
            c.capacity() == capacity,
            c.expiries() == Map::<Seq<char>, i128>::empty(),
            c.ttl_nanos() == (ttl_seconds as i64) as int * 1_000_000_000,
            -10_000_000_000_000_000_000_000_000 <= c.ttl_nanos() <= 10_000_000_000_000_000_000_000_000,
    {
        let secs = ttl_seconds as i64;
        Self {
            cache: lru_new(capacity),
            ttl_nanos: secs as i128 * 1_000_000_000,
            expires: expiries_new(),
            clock: WallClock::start(),
        }
    }

    /// Remove value
    pub fn remove(&mut self, key: &str)
        ensures
            final(self).entries() == without_key(old(self).entries(), key@),
            final(self).expiries() == old(self).expiries().remove(key@),
            final(self).capacity() == old(self).capacity(),
            final(self).ttl_nanos() == old(self).ttl_nanos(),
            final(self).clock_time() == old(self).clock_time(),
    {
        proof {
            use_type_invariant(&*self);
        }
        lru_pop(&mut self.cache, key);
        proof {
            let e = old(self).entries();
            if has_key(e, key@) {
                assert(has_key_at(e, key@, key_index(e, key@)));
            }
        }
        expiries_remove(&mut self.expires, key);
    }

    /// Get value at time `now`: a value whose expiry time has passed is
    /// removed and gives nothing; a value found becomes the most recently used.
    pub fn get_at(&mut self, key: &str, now: i128) -> (r: Option<Vec<u8>>)
        ensures
            final(self).capacity() == old(self).capacity(),
            final(self).ttl_nanos() == old(self).ttl_nanos(),
            final(self).clock_time() == old(self).clock_time(),
            (bytes_of(r), final(self).entries(), final(self).expiries()) == old(self).fetched(
                key@,
                now,
            ),
    {
        proof {
            use_type_invariant(&*self);
        }
        match expiries_get(&self.expires, key) {
            Some(expires) => {
                if now > expires {
                    self.remove(key);
                    return None;
                }
            },
            None => {},
        }
        let r = lru_get(&mut self.cache, key);
        proof {
            let e = old(self).entries();
            if has_key(e, key@) {
                assert(has_key_at(e, key@, key_index(e, key@)));
            }
        }
        r
    }

    /// Get value, unless it has expired: the UTC clock is read, and the
    /// value is judged at that time.
    pub fn get(&mut self, key: &str) -> (r: Option<Vec<u8>>)
        ensures
            final(self).capacity() == old(self).capacity(),
            final(self).ttl_nanos() == old(self).ttl_nanos(),
            old(self).fetched(key@, final(self).clock_time()) == (
                bytes_of(r),
                final(self).entries(),
                final(self).expiries(),
            ),
    {
        proof {
            use_type_invariant(&*self);
        }
        let mut clock = self.clock;
        let now = clock.read();
        self.clock = clock;
        self.get_at(key, now)
    }

    /// Set value at time `now`: it becomes the most recently used, expiring
    /// after the time to live; a new key finding the cache full drops the
    /// least recently used value.
    pub fn set_at(&mut self, key: &str, value: Vec<u8>, now: i128)
        requires
            i128::MIN <= now + old(self).ttl_nanos() <= i128::MAX,
        ensures
            final(self).capacity() == old(self).capacity(),
            final(self).ttl_nanos() == old(self).ttl_nanos(),
            final(self).clock_time() == old(self).clock_time(),
            (final(self).entries(), final(self).expiries()) == old(self).stored(key@, value@, now),
            final(self).entries().len() <= final(self).capacity(),
            distinct_keys(old(self).entries()),
            old(self).capacity() > 0,
    {
        proof {
            use_type_invariant(&*self);
        }
        let ghost e = lru_entries(self.cache);
        let ghost v = value@;
        lru_put(&mut self.cache, key.to_owned(), value);
        proof {
            if has_key(e, key@) {
                let i = key_index(e, key@);
                assert(has_key_at(e, key@, i));
                assert(lru_entries(self.cache).len() == e.len());
            }
        }
        expiries_insert(&mut self.expires, key.to_owned(), now + self.ttl_nanos);
        assert(self.entries() =~= old(self).stored(key@, v, now).0);
    }

    /// Set value; it expires after the time to live, counted from a reading
    /// of the UTC clock taken now.
    pub fn set(&mut self, key: &str, value: Vec<u8>)
        ensures
            final(self).capacity() == old(self).capacity(),
            final(self).ttl_nanos() == old(self).ttl_nanos(),
            old(self).stored(key@, value@, final(self).clock_time()) == (
                final(self).entries(),
                final(self).expiries(),
            ),
            final(self).entries().len() <= final(self).capacity(),
    {
        proof {
            use_type_invariant(&*self);
        }
        let mut clock = self.clock;
        let now = clock.read();
        self.clock = clock;
        self.set_at(key, value, now);
    }

    /// Clear cache
    pub fn clear(&mut self)
        ensures
            final(self).entries() == Seq::<(Seq<char>, Seq<u8>)>::empty(),
            final(self).expiries() == Map::<Seq<char>, i128>::empty(),
            final(self).capacity() == old(self).capacity(),
            final(self).ttl_nanos() == old(self).ttl_nanos(),
    {
        proof {
            use_type_invariant(&*self);
        }
        lru_clear(&mut self.cache);
        expiries_clear(&mut self.expires);
    }

    /// Get size
    pub fn size(&self) -> (n: usize)
        ensures
            n == self.entries().len(),
            n <= self.capacity(),
    {
        lru_len(&self.cache)
    }
}

// ---------------------------------------------------------------------
// Laws
// ---------------------------------------------------------------------

/// What a cache is given to store is what reading the key gives back, as
/// long as the time to live since storing has not passed.
pub proof fn cache_read_after_write(
    before: Cache,
    after: Cache,
    key: Seq<char>,
    value: Seq<u8>,
    now: i128,
    later: i128,
)
    requires
        i128::MIN <= now + before.ttl_nanos() <= i128::MAX,
        before.stored(key, value, now, after.entries()),
        later <= now + before.ttl_nanos(),
    ensures
        after.fetched(key, later).0 == Some(value),
        after.fetched(key, later).1 == after.entries(),
{
}

/// Once the time to live since storing has passed, reading the key gives
/// nothing and drops the entry.
pub proof fn cache_value_expires(
    before: Cache,
    after: Cache,
    key: Seq<char>,
    value: Seq<u8>,
    now: i128,
    later: i128,
)
    requires
        i128::MIN <= now + before.ttl_nanos() <= i128::MAX,
        before.stored(key, value, now, after.entries()),
        later > now + before.ttl_nanos(),
    ensures
        after.fetched(key, later) == (None::<Seq<u8>>, after.entries().remove(key)),
{
}

/// Once a key is removed (or the cache cleared), reading it gives nothing.
pub proof fn cache_removed_key_is_gone(before: Cache, after: Cache, key: Seq<char>, later: i128)
    requires
        after.entries() == before.entries().remove(key) || after.entries() == Map::<
            Seq<char>,
            (Seq<u8>, i128),
        >::empty(),
    ensures
        after.fetched(key, later).0 is None,
{
}

/// Storing never makes a cache hold more than `max_entries` entries (one
/// entry, when `max_entries` is 0).
pub proof fn cache_size_stays_bounded(
    before: Cache,
    after: Cache,
    key: Seq<char>,
    value: Seq<u8>,
    now: i128,
)
    requires
        before.entries().dom().finite(),
        before.entries().len() <= if before.max_entries() == 0 { 1 } else { before.max_entries() as int },
        before.stored(key, value, now, after.entries()),
    ensures
        after.entries().dom().finite(),
        after.entries().len() <= if before.max_entries() == 0 { 1 } else { before.max_entries() as int },
{
    let m = before.entries();
    let entry = (value, (now + before.ttl_nanos()) as i128);
    if m.len() >= before.max_entries() && m.len() > 0 {
        let k = choose|k: Seq<char>| #[trigger] m.contains_key(k) && after.entries() == m.remove(k).insert(key, entry);
        assert(m.remove(k).len() == m.len() - 1);
        assert(m.remove(k).insert(key, entry).len() <= m.remove(k).len() + 1);
    } else {
        assert(m.insert(key, entry).len() <= m.len() + 1);
    }
}

/// The keys of entries past position 0 differ from the key at position 0
/// when no two entries share a key.
proof fn lemma_front_key(e: Seq<(Seq<char>, Seq<u8>)>, k: Seq<char>)
    requires
        e.len() > 0,
        e[0].0 == k,
        distinct_keys(e),
    ensures
        has_key(e, k),
        key_index(e, k) == 0,
{
    assert(has_key_at(e, k, 0));
    let i = key_index(e, k);
    assert(has_key_at(e, k, i));
}

/// Setting a key never gives two entries the same key.
proof fn lemma_stored_distinct(c: LruCache, key: Seq<char>, value: Seq<u8>, now: i128)
    requires
        distinct_keys(c.entries()),
        c.capacity() > 0,
    ensures
        distinct_keys(c.stored(key, value, now).0),
        c.stored(key, value, now).0[0] == (key, value),
{
    let e = c.entries();
    let rest = if has_key(e, key) {
        without_key(e, key)
    } else if e.len() == c.capacity() {
        e.drop_last()
    } else {
        e
    };
    let s = c.stored(key, value, now).0;
    assert(s == seq![(key, value)] + rest);
    if has_key(e, key) {
        let i = key_index(e, key);
        assert(has_key_at(e, key, i));
        assert forall|j: int| 0 <= j < rest.len() implies #[trigger] rest[j].0 != key by {
            if j < i {
                assert(rest[j] == e[j]);
            } else {
                assert(rest[j] == e[j + 1]);
            }
        }
        assert forall|a: int, b: int|
            0 <= a < rest.len() && 0 <= b < rest.len() && a != b implies #[trigger] rest[a].0
            != #[trigger] rest[b].0 by {
            let a2 = if a < i { a } else { a + 1 };
            let b2 = if b < i { b } else { b + 1 };
            assert(rest[a] == e[a2]);
            assert(rest[b] == e[b2]);
        }
    } else {
        assert(rest.len() <= e.len());
        assert forall|j: int| 0 <= j < rest.len() implies #[trigger] rest[j] == e[j] by {}
        assert forall|j: int| 0 <= j < rest.len() implies #[trigger] rest[j].0 != key by {
            assert(rest[j] == e[j]);
            if rest[j].0 == key {
                assert(has_key_at(e, key, j));
            }
        }
        assert forall|a: int, b: int|
            0 <= a < rest.len() && 0 <= b < rest.len() && a != b implies #[trigger] rest[a].0
            != #[trigger] rest[b].0 by {
            assert(rest[a] == e[a]);
            assert(rest[b] == e[b]);
        }
    }
    assert forall|a: int, b: int|
        0 <= a < s.len() && 0 <= b < s.len() && a != b implies #[trigger] s[a].0 != #[trigger] s[b].0 by {
        if a > 0 && b > 0 {
            assert(s[a] == rest[a - 1]);
            assert(s[b] == rest[b - 1]);
        } else if a == 0 {
            assert(s[b] == rest[b - 1]);
        } else {
            assert(s[a] == rest[a - 1]);
        }
    }
}

/// What an LRU cache is given to set is what reading the key right after
/// gives back, as long as the time to live has not passed; reading makes no
/// other change.
pub proof fn lru_read_after_write(
    before: LruCache,
    after: LruCache,
    key: Seq<char>,
    value: Seq<u8>,
    now: i128,
    later: i128,
)
    requires
        distinct_keys(before.entries()),
        before.capacity() > 0,
        i128::MIN <= now + before.ttl_nanos() <= i128::MAX,
        (after.entries(), after.expiries()) == before.stored(key, value, now),
        later <= now + before.ttl_nanos(),
    ensures
        after.fetched(key, later) == (Some(value), after.entries(), after.expiries()),
{
    lemma_stored_distinct(before, key, value, now);
    lemma_front_key(after.entries(), key);
    let e = after.entries();
    assert(seq![e[0]] + e.remove(0) =~= e);
}

/// Once the time to live has passed, reading a key set in an LRU cache
/// gives nothing and removes the key.
pub proof fn lru_value_expires(
    before: LruCache,
    after: LruCache,
    key: Seq<char>,
    value: Seq<u8>,
    now: i128,
    later: i128,
)
    requires
        i128::MIN <= now + before.ttl_nanos() <= i128::MAX,
        (after.entries(), after.expiries()) == before.stored(key, value, now),
        later > now + before.ttl_nanos(),
    ensures
        after.fetched(key, later).0 is None,
        !after.fetched(key, later).2.contains_key(key),
{
}

} // verus!
