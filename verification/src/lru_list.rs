//! The recency-ordered store of the `lru` crate, as the cache sees it.

use vstd::prelude::*;

verus! {

/// An `lru::LruCache` of byte values keyed by strings, held opaquely.
#[verifier::external_body]
pub struct LruStore {
    inner: lru::LruCache<String, Vec<u8>>,
}

/// The entries of an `lru::LruCache`, most recently used first.
pub uninterp spec fn lru_entries(c: LruStore) -> Seq<(Seq<char>, Seq<u8>)>;

/// The capacity an `lru::LruCache` was made with.
pub uninterp spec fn lru_capacity(c: LruStore) -> nat;

/// No two entries share a key.
pub open spec fn distinct_keys(e: Seq<(Seq<char>, Seq<u8>)>) -> bool {
    forall|i: int, j: int|
        0 <= i < e.len() && 0 <= j < e.len() && i != j ==> #[trigger] e[i].0 != #[trigger] e[j].0
}

/// Position of the entry with key `k`, if any.
pub open spec fn has_key_at(e: Seq<(Seq<char>, Seq<u8>)>, k: Seq<char>, i: int) -> bool {
    0 <= i < e.len() && e[i].0 == k
}

/// Whether some entry has key `k`.
pub open spec fn has_key(e: Seq<(Seq<char>, Seq<u8>)>, k: Seq<char>) -> bool {
    exists|i: int| has_key_at(e, k, i)
}

/// `lru::LruCache::new`: an empty cache holding at most `capacity` entries.
#[verifier::external_body]
pub(crate) fn lru_new(capacity: usize) -> (c: LruStore)
    requires
        capacity > 0,
    ensures
        lru_entries(c) == Seq::<(Seq<char>, Seq<u8>)>::empty(),
        lru_capacity(c) == capacity,
{
    LruStore { inner: lru::LruCache::new(std::num::NonZeroUsize::new(capacity).unwrap()) }
}

/// `lru::LruCache::get`: the value under `key`, which becomes the most
/// recently used entry; a missing key changes nothing. It does not panic.
#[verifier::external_body]
pub(crate) fn lru_get(c: &mut LruStore, key: &str) -> (r: Option<Vec<u8>>)
    ensures
        distinct_keys(lru_entries(*old(c))),
        lru_capacity(*final(c)) == lru_capacity(*old(c)),
        forall|i: int| #[trigger] has_key_at(lru_entries(*old(c)), key@, i) ==> {
            &&& r matches Some(v) && v@ == lru_entries(*old(c))[i].1
            &&& lru_entries(*final(c)) == seq![lru_entries(*old(c))[i]] + lru_entries(
                *old(c),
            ).remove(i)
        },
        !has_key(lru_entries(*old(c)), key@) ==> r is None && lru_entries(*final(c))
            == lru_entries(*old(c)),
    no_unwind
{
    c.inner.get(key).cloned()
}

/// `lru::LruCache::put`: stores the value as the most recently used entry,
/// returning the value it replaces; when a new key finds the cache full, the
/// least recently used entry is dropped. It does not panic.
#[verifier::external_body]
pub(crate) fn lru_put(c: &mut LruStore, key: String, value: Vec<u8>) -> (r: Option<
    Vec<u8>,
>)
    ensures
        distinct_keys(lru_entries(*old(c))),
        lru_entries(*old(c)).len() <= lru_capacity(*old(c)),
        lru_capacity(*old(c)) > 0,
        lru_capacity(*final(c)) == lru_capacity(*old(c)),
        forall|i: int| #[trigger] has_key_at(lru_entries(*old(c)), key@, i) ==> {
            &&& r matches Some(v) && v@ == lru_entries(*old(c))[i].1
            &&& lru_entries(*final(c)) == seq![(key@, value@)] + lru_entries(*old(c)).remove(i)
        },
        !has_key(lru_entries(*old(c)), key@) ==> {
            &&& r is None
            &&& lru_entries(*final(c)) == seq![(key@, value@)] + if lru_entries(*old(c)).len()
                == lru_capacity(*old(c)) {
                lru_entries(*old(c)).drop_last()
            } else {
                lru_entries(*old(c))
            }
        },
    no_unwind
{
    c.inner.put(key, value)
}

/// `lru::LruCache::pop`: removes the entry under `key`, returning its value.
/// It does not panic.
#[verifier::external_body]
pub(crate) fn lru_pop(c: &mut LruStore, key: &str) -> (r: Option<Vec<u8>>)
    ensures
        distinct_keys(lru_entries(*old(c))),
        lru_capacity(*final(c)) == lru_capacity(*old(c)),
        forall|i: int| #[trigger] has_key_at(lru_entries(*old(c)), key@, i) ==> {
            &&& r matches Some(v) && v@ == lru_entries(*old(c))[i].1
            &&& lru_entries(*final(c)) == lru_entries(*old(c)).remove(i)
        },
        !has_key(lru_entries(*old(c)), key@) ==> r is None && lru_entries(*final(c))
            == lru_entries(*old(c)),
    no_unwind
{
    c.inner.pop(key)
}

/// `lru::LruCache::clear`: removes every entry. It does not panic.
#[verifier::external_body]
pub(crate) fn lru_clear(c: &mut LruStore)
    ensures
        lru_entries(*final(c)) == Seq::<(Seq<char>, Seq<u8>)>::empty(),
        lru_capacity(*final(c)) == lru_capacity(*old(c)),
    no_unwind
{
    c.inner.clear()
}

/// `lru::LruCache::len`: the number of entries, at most the capacity.
#[verifier::external_body]
pub(crate) fn lru_len(c: &LruStore) -> (n: usize)
    ensures
        n == lru_entries(*c).len(),
        n <= lru_capacity(*c),
{
    c.inner.len()
}

} // verus!
