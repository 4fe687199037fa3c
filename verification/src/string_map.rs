//! A map keyed by strings, kept as a list of entries with distinct keys.
//!
//! The entries keep the order in which their keys were first inserted;
//! the abstract view is a `Map` from the key's characters to the value.

use vstd::prelude::*;

verus! {

/// The map that a list of (key, value) entries denotes: a later entry
/// overrides an earlier one with the same key.
pub open spec fn map_of<V>(e: Seq<(String, V)>) -> Map<Seq<char>, V>
    decreases e.len(),
{
    if e.len() == 0 {
        Map::empty()
    } else {
        map_of(e.drop_last()).insert(e.last().0@, e.last().1)
    }
}

/// No two entries carry keys with the same characters.
pub open spec fn keys_distinct<V>(e: Seq<(String, V)>) -> bool {
    forall|i: int, j: int|
        0 <= i < e.len() && 0 <= j < e.len() && i != j ==> #[trigger] e[i].0@ != #[trigger] e[j].0@
}

/// The characters of each key, in entry order.
pub open spec fn key_views<V>(e: Seq<(String, V)>) -> Seq<Seq<char>> {
    Seq::new(e.len(), |i: int| e[i].0@)
}

/// What the entry list denotes: each entry's key maps to its value, nothing
/// else is in the map, and with distinct keys there is one key per entry.
pub proof fn lemma_map_of<V>(e: Seq<(String, V)>)
    ensures
        map_of(e).dom().finite(),
        forall|i: int|
            0 <= i < e.len() ==> #[trigger] map_of(e).contains_key(e[i].0@),
        forall|k: Seq<char>|
            #[trigger] map_of(e).contains_key(k) ==> exists|i: int| 0 <= i < e.len() && e[i].0@ == k,
        keys_distinct(e) ==> forall|i: int|
            0 <= i < e.len() ==> #[trigger] map_of(e)[e[i].0@] == e[i].1,
        keys_distinct(e) ==> map_of(e).len() == e.len(),
    decreases e.len(),
{
    if e.len() > 0 {
        let p = e.drop_last();
        lemma_map_of(p);
        let last = e.last();
        assert forall|i: int| 0 <= i < e.len() implies #[trigger] map_of(e).contains_key(e[i].0@) by {
            if i < e.len() - 1 {
                assert(e[i] == p[i]);
                assert(map_of(p).contains_key(p[i].0@));
            }
        }
        assert forall|k: Seq<char>| #[trigger] map_of(e).contains_key(k) implies exists|i: int|
            0 <= i < e.len() && e[i].0@ == k by {
            if k == last.0@ {
                assert(e[e.len() - 1].0@ == k);
            } else {
                assert(map_of(p).contains_key(k));
                let i = choose|i: int| 0 <= i < p.len() && p[i].0@ == k;
                assert(e[i] == p[i]);
            }
        }
        if keys_distinct(e) {
            assert(keys_distinct(p)) by {
                assert forall|i: int, j: int|
                    0 <= i < p.len() && 0 <= j < p.len() && i != j implies #[trigger] p[i].0@
                    != #[trigger] p[j].0@ by {
                    assert(e[i] == p[i] && e[j] == p[j]);
                }
            }
            assert forall|i: int| 0 <= i < e.len() implies #[trigger] map_of(e)[e[i].0@] == e[i].1 by {
                if i < e.len() - 1 {
                    assert(e[i] == p[i]);
                    assert(e[i].0@ != e[e.len() - 1].0@);
                }
            }
            assert(!map_of(p).contains_key(last.0@)) by {
                if map_of(p).contains_key(last.0@) {
                    let i = choose|i: int| 0 <= i < p.len() && p[i].0@ == last.0@;
                    assert(e[i] == p[i]);
                    assert(e[i].0@ != e[e.len() - 1].0@);
                }
            }
        }
    }
}

/// Replacing the value of entry `i` (keeping its key) updates the map at that key.
pub proof fn lemma_map_of_update<V>(e: Seq<(String, V)>, i: int, k: String, v: V)
    requires
        keys_distinct(e),
        0 <= i < e.len(),
        k@ == e[i].0@,
    ensures
        keys_distinct(e.update(i, (k, v))),
        map_of(e.update(i, (k, v))) == map_of(e).insert(k@, v),
{
    let f = e.update(i, (k, v));
    assert forall|a: int, b: int|
        0 <= a < f.len() && 0 <= b < f.len() && a != b implies #[trigger] f[a].0@
        != #[trigger] f[b].0@ by {
        assert(f[a].0@ == e[a].0@ && f[b].0@ == e[b].0@);
    }
    lemma_map_of(e);
    lemma_map_of(f);
    let m = map_of(e).insert(k@, v);
    assert forall|key: Seq<char>| #[trigger] map_of(f).contains_key(key) <==> m.contains_key(key) by {
        if map_of(f).contains_key(key) {
            let j = choose|j: int| 0 <= j < f.len() && f[j].0@ == key;
            assert(f[j].0@ == e[j].0@);
            assert(map_of(e).contains_key(e[j].0@));
        }
        if m.contains_key(key) && key != k@ {
            let j = choose|j: int| 0 <= j < e.len() && e[j].0@ == key;
            assert(f[j].0@ == e[j].0@);
            assert(map_of(f).contains_key(f[j].0@));
        }
        if key == k@ {
            assert(map_of(f).contains_key(f[i].0@));
        }
    }
    assert forall|key: Seq<char>| #[trigger] map_of(f).contains_key(key) implies map_of(f)[key]
        == m[key] by {
        let j = choose|j: int| 0 <= j < f.len() && f[j].0@ == key;
        assert(map_of(f)[f[j].0@] == f[j].1);
        if j != i {
            assert(f[j] == e[j]);
            assert(map_of(e)[e[j].0@] == e[j].1);
        }
    }
    assert(map_of(f) =~= m);
}

/// Removing entry `i` removes its key from the map.
pub proof fn lemma_map_of_remove<V>(e: Seq<(String, V)>, i: int)
    requires
        keys_distinct(e),
        0 <= i < e.len(),
    ensures
        keys_distinct(e.remove(i)),
        map_of(e.remove(i)) == map_of(e).remove(e[i].0@),
{
    let f = e.remove(i);
    assert forall|j: int| 0 <= j < f.len() implies #[trigger] f[j] == e[if j < i {
        j
    } else {
        j + 1
    }] by {}
    assert forall|a: int, b: int|
        0 <= a < f.len() && 0 <= b < f.len() && a != b implies #[trigger] f[a].0@
        != #[trigger] f[b].0@ by {
        assert(f[a] == e[if a < i {
            a
        } else {
            a + 1
        }]);
        assert(f[b] == e[if b < i {
            b
        } else {
            b + 1
        }]);
    }
    lemma_map_of(e);
    lemma_map_of(f);
    let m = map_of(e).remove(e[i].0@);
    assert forall|key: Seq<char>| #[trigger] map_of(f).contains_key(key) <==> m.contains_key(key) by {
        if map_of(f).contains_key(key) {
            let j = choose|j: int| 0 <= j < f.len() && f[j].0@ == key;
            let jj = if j < i {
                j
            } else {
                j + 1
            };
            assert(f[j] == e[jj]);
            assert(map_of(e).contains_key(e[jj].0@));
            assert(e[jj].0@ != e[i].0@);
        }
        if m.contains_key(key) {
            let j = choose|j: int| 0 <= j < e.len() && e[j].0@ == key;
            assert(j != i);
            let jf = if j < i {
                j
            } else {
                j - 1
            };
            assert(f[jf] == e[j]);
            assert(map_of(f).contains_key(f[jf].0@));
        }
    }
    assert forall|key: Seq<char>| #[trigger] map_of(f).contains_key(key) implies map_of(f)[key]
        == m[key] by {
        let j = choose|j: int| 0 <= j < f.len() && f[j].0@ == key;
        let jj = if j < i {
            j
        } else {
            j + 1
        };
        assert(f[j] == e[jj]);
        assert(map_of(f)[f[j].0@] == f[j].1);
        assert(map_of(e)[e[jj].0@] == e[jj].1);
        assert(e[jj].0@ != e[i].0@);
    }
    assert(map_of(f) =~= m);
}

/// Appending an entry with a fresh key inserts it into the map.
pub proof fn lemma_map_of_push<V>(e: Seq<(String, V)>, k: String, v: V)
    requires
        keys_distinct(e),
        !map_of(e).contains_key(k@),
    ensures
        keys_distinct(e.push((k, v))),
        map_of(e.push((k, v))) == map_of(e).insert(k@, v),
{
    let f = e.push((k, v));
    lemma_map_of(e);
    assert(f.drop_last() =~= e);
    assert forall|a: int, b: int|
        0 <= a < f.len() && 0 <= b < f.len() && a != b implies #[trigger] f[a].0@
        != #[trigger] f[b].0@ by {
        if a < e.len() && b < e.len() {
            assert(f[a] == e[a] && f[b] == e[b]);
        } else if a < e.len() {
            assert(f[a] == e[a]);
            assert(map_of(e).contains_key(e[a].0@));
        } else {
            assert(f[b] == e[b]);
            assert(map_of(e).contains_key(e[b].0@));
        }
    }
}

/// A map from strings to values, with the keys kept distinct.
pub struct StringMap<V> {
    entries: Vec<(String, V)>,
}

impl<V> View for StringMap<V> {
    type V = Map<Seq<char>, V>;

    open spec fn view(&self) -> Map<Seq<char>, V> {
        map_of(self.entry_seq())
    }
}

impl<V> StringMap<V> {
    /// The entries, in the order in which their keys were first inserted.
    pub closed spec fn entry_seq(&self) -> Seq<(String, V)> {
        self.entries@
    }

    /// The keys are distinct; every map satisfies this (its type invariant).
    #[verifier::type_invariant]
    pub closed spec fn well_formed(&self) -> bool {
        keys_distinct(self.entries@)
    }

    /// The keys, in the order in which they were first inserted.
    pub open spec fn key_seq(&self) -> Seq<Seq<char>> {
        key_views(self.entry_seq())
    }

    /// What every map satisfies: one entry per key, and the view is finite.
    pub proof fn lemma_wf(&self)
        requires
            self.well_formed(),
        ensures
            keys_distinct(self.entry_seq()),
            self@.dom().finite(),
            self@.len() == self.entry_seq().len(),
            forall|i: int|
                0 <= i < self.entry_seq().len() ==> #[trigger] self@.contains_key(
                    self.entry_seq()[i].0@,
                ) && self@[self.entry_seq()[i].0@] == self.entry_seq()[i].1,
            forall|k: Seq<char>|
                #[trigger] self@.contains_key(k) ==> exists|i: int|
                    0 <= i < self.entry_seq().len() && self.entry_seq()[i].0@ == k,
    {
        lemma_map_of(self.entries@);
    }

    /// An empty map.
    pub fn new() -> (m: Self)
        ensures
            m@ == Map::<Seq<char>, V>::empty(),
            m.entry_seq().len() == 0,
    {
        StringMap { entries: Vec::new() }
    }

    /// Number of keys.
    pub fn len(&self) -> (n: usize)
        ensures
            n == self@.len(),
            n == self.entry_seq().len(),
    {
        proof {
            use_type_invariant(&*self);
            self.lemma_wf();
        }
        self.entries.len()
    }

    /// Position of the entry with the given key, if any.
    pub fn position(&self, key: &str) -> (r: Option<usize>)
        ensures
            match r {
                Some(i) => i < self.entry_seq().len() && self.entry_seq()[i as int].0@ == key@,
                None => !self@.contains_key(key@),
            },
            r is Some <==> self@.contains_key(key@),
    {
        proof {
            use_type_invariant(&*self);
            self.lemma_wf();
        }
        let wanted = key.to_owned();
        let mut i: usize = 0;
        while i < self.entries.len()
            invariant
                i <= self.entry_seq().len(),
                wanted@ == key@,
                self.entries@ == self.entry_seq(),
                forall|j: int| 0 <= j < i ==> self.entry_seq()[j].0@ != key@,
            decreases self.entry_seq().len() - i,
        {
            if self.entries[i].0 == wanted {
                proof {
                    use_type_invariant(self);
                    self.lemma_wf();
                }
                assert(self@.contains_key(self.entry_seq()[i as int].0@));
                return Some(i);
            }
            i = i + 1;
        }
        None
    }

    /// The key and value stored at position `i`.
    pub fn entry_at(&self, i: usize) -> (r: (&String, &V))
        requires
            i < self.entry_seq().len(),
        ensures
            *r.0 == self.entry_seq()[i as int].0,
            *r.1 == self.entry_seq()[i as int].1,
    {
        let e = &self.entries[i];
        (&e.0, &e.1)
    }

    /// The value stored under `key`, if any.
    pub fn get(&self, key: &str) -> (r: Option<&V>)
        ensures
            match r {
                Some(v) => self@.contains_key(key@) && *v == self@[key@],
                None => !self@.contains_key(key@),
            },
    {
        proof {
            use_type_invariant(&*self);
            self.lemma_wf();
        }
        match self.position(key) {
            Some(i) => Some(&self.entries[i].1),
            None => None,
        }
    }

    /// Whether a value is stored under `key`.
    pub fn contains_key(&self, key: &str) -> (b: bool)
        ensures
            b == self@.contains_key(key@),
    {
        self.position(key).is_some()
    }

    /// Replaces the value at position `i`, keeping its key and position, and
    /// returns the value it held.
    pub fn replace_at(&mut self, i: usize, v: V) -> (r: V)
        requires
            i < old(self).entry_seq().len(),
        ensures
            r == old(self).entry_seq()[i as int].1,
            final(self)@ == old(self)@.insert(old(self).entry_seq()[i as int].0@, v),
            final(self).key_seq() == old(self).key_seq(),
            final(self).entry_seq().len() == old(self).entry_seq().len(),
            final(self).entry_seq()[i as int].0@ == old(self).entry_seq()[i as int].0@,
    {
        proof {
            use_type_invariant(&*self);
        }
        let mut entries = Vec::new();
        std::mem::swap(&mut entries, &mut self.entries);
        let ghost before = entries@;
        let (k, prev) = entries.remove(i);
        proof {
            lemma_map_of_update(before, i as int, k, v);
        }
        entries.insert(i, (k, v));
        assert(entries@ =~= before.update(i as int, (k, v)));
        assert(key_views(entries@) =~= key_views(before));
        self.entries = entries;
        prev
    }

    /// Stores `v` under `key`, returning the value it replaces. A new key goes
    /// after all the others.
    pub fn insert(&mut self, key: String, v: V) -> (r: Option<V>)
        ensures
            final(self)@ == old(self)@.insert(key@, v),
            match r {
                Some(old_v) => old(self)@.contains_key(key@) && old_v == old(self)@[key@],
                None => !old(self)@.contains_key(key@),
            },
            old(self)@.contains_key(key@) ==> final(self).key_seq() == old(self).key_seq(),
            !old(self)@.contains_key(key@) ==> final(self).key_seq() == old(self).key_seq().push(
                key@,
            ),
    {
        proof {
            use_type_invariant(&*self);
            lemma_map_of(self.entries@);
        }
        let found = self.position(key.as_str());
        let mut entries = Vec::new();
        std::mem::swap(&mut entries, &mut self.entries);
        let ghost before = entries@;
        match found {
            Some(i) => {
                proof {
                    lemma_map_of_update(entries@, i as int, key, v);
                }
                let (_, prev) = entries.remove(i);
                entries.insert(i, (key, v));
                assert(entries@ =~= before.update(i as int, (key, v)));
                assert(key_views(entries@) =~= key_views(before));
                self.entries = entries;
                Some(prev)
            },
            None => {
                proof {
                    lemma_map_of_push(entries@, key, v);
                }
                entries.push((key, v));
                assert(key_views(entries@) =~= key_views(before).push(key@));
                self.entries = entries;
                None
            },
        }
    }

    /// Removes the entry at position `i` and returns it.
    pub fn remove_at(&mut self, i: usize) -> (r: (String, V))
        requires
            i < old(self).entry_seq().len(),
        ensures
            r == old(self).entry_seq()[i as int],
            final(self)@ == old(self)@.remove(r.0@),
            final(self).key_seq() == old(self).key_seq().remove(i as int),
    {
        proof {
            use_type_invariant(&*self);
            lemma_map_of_remove(self.entries@, i as int);
        }
        let mut entries = Vec::new();
        std::mem::swap(&mut entries, &mut self.entries);
        let ghost before = entries@;
        let r = entries.remove(i);
        assert(key_views(entries@) =~= key_views(before).remove(i as int));
        self.entries = entries;
        r
    }

    /// Removes the value stored under `key`, returning it.
    pub fn remove(&mut self, key: &str) -> (r: Option<V>)
        ensures
            final(self)@ == old(self)@.remove(key@),
            match r {
                Some(v) => old(self)@.contains_key(key@) && v == old(self)@[key@],
                None => !old(self)@.contains_key(key@),
            },
    {
        proof {
            use_type_invariant(&*self);
            self.lemma_wf();
        }
        match self.position(key) {
            Some(i) => {
                let (_, v) = self.remove_at(i);
                Some(v)
            },
            None => {
                assert(old(self)@.remove(key@) =~= old(self)@);
                None
            },
        }
    }

    /// Removes every entry.
    pub fn clear(&mut self)
        ensures
            final(self)@ == Map::<Seq<char>, V>::empty(),
            final(self).entry_seq().len() == 0,
    {
        self.entries = Vec::new();
    }
}

} // verus!
