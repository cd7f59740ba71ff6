use vstd::prelude::*;

verus! {

/// The position of the entry with key `key` among `entries`, where there is one.
pub open spec fn key_position<V>(entries: Seq<(u64, V)>, key: u64) -> Option<int> {
    if exists|i: int| 0 <= i < entries.len() && (#[trigger] entries[i]).0 == key {
        Some(choose|i: int| 0 <= i < entries.len() && (#[trigger] entries[i]).0 == key)
    } else {
        None
    }
}

/// Whether no two entries have the same key.
pub open spec fn keys_distinct<V>(entries: Seq<(u64, V)>) -> bool {
    forall|i: int, j: int| 0 <= i < j < entries.len() ==> (#[trigger] entries[i]).0 != (#[trigger] entries[j]).0
}

/// The entries after storing `value` under `key` in a cache of `capacity` entries, and the
/// entry evicted: an entry of `key` is replaced and becomes the most recently used; a new key
/// becomes the most recently used entry, after the least recently used one is evicted where
/// the cache is full.
pub open spec fn spec_insert<V>(entries: Seq<(u64, V)>, capacity: int, key: u64, value: V) -> (Seq<(u64, V)>, Option<(u64, V)>) {
    match key_position(entries, key) {
        Some(i) => (entries.remove(i).push((key, value)), None),
        None => if entries.len() >= capacity {
            (entries.subrange(1, entries.len() as int).push((key, value)), Some(entries[0]))
        } else {
            (entries.push((key, value)), None)
        },
    }
}

/// The entries after a use of the entry of `key`: it becomes the most recently used one.
pub open spec fn spec_touch<V>(entries: Seq<(u64, V)>, key: u64) -> Seq<(u64, V)> {
    match key_position(entries, key) {
        Some(i) => entries.remove(i).push(entries[i]),
        None => entries,
    }
}

/// The value stored under `key`, where there is one.
pub open spec fn spec_lookup<V>(entries: Seq<(u64, V)>, key: u64) -> Option<V> {
    match key_position(entries, key) {
        Some(i) => Some(entries[i].1),
        None => None,
    }
}

/// The statistics of a cache: evictions, hits and misses.
#[derive(Clone, Copy, Debug, PartialEq, Eq, Structural)]
pub struct Stats {
    /// The number of evictions.
    evictions: usize,
    /// The number of lookups that found their key.
    hits: usize,
    /// The number of lookups that did not.
    misses: usize,
}

impl Stats {
    /// The number of evictions.
    pub closed spec fn spec_evictions(&self) -> int {
        self.evictions as int
    }

    /// The number of lookups that found their key.
    pub closed spec fn spec_hits(&self) -> int {
        self.hits as int
    }

    /// The number of lookups that did not.
    pub closed spec fn spec_misses(&self) -> int {
        self.misses as int
    }

    /// The number of evictions.
    pub fn evictions(&self) -> (r: usize)
        ensures
            r == self.spec_evictions(),
    {
        self.evictions
    }

    /// The number of lookups that found their key.
    pub fn hits(&self) -> (r: usize)
        ensures
            r == self.spec_hits(),
    {
        self.hits
    }

    /// The number of lookups that did not.
    pub fn misses(&self) -> (r: usize)
        ensures
            r == self.spec_misses(),
    {
        self.misses
    }
}

/// A cache that evicts the least recently used entry
/// ([LRU](https://en.wikipedia.org/wiki/Cache_replacement_policies#LRU)) when it is full.
/// Keys and values are light: the data they stand for lives elsewhere.
pub struct Lru<V> {
    /// The entries, from the least recently used to the most recently used.
    entries: Vec<(u64, V)>,
    /// The greatest number of entries.
    capacity: usize,
    /// The statistics of the cache.
    stats: Stats,
}

impl<V> View for Lru<V> {
    type V = Seq<(u64, V)>;

    /// The entries, from the least recently used to the most recently used.
    closed spec fn view(&self) -> Seq<(u64, V)> {
        self.entries@
    }
}

impl<V: Clone> Lru<V> {
    /// The greatest number of entries.
    pub closed spec fn spec_capacity(&self) -> int {
        self.capacity as int
    }

    /// The statistics of the cache.
    pub closed spec fn spec_stats(&self) -> Stats {
        self.stats
    }

    /// The capacity is positive, no more entries than it are stored, and keys are distinct.
    pub open spec fn wf(&self) -> bool {
        &&& self.spec_capacity() > 0
        &&& self@.len() <= self.spec_capacity()
        &&& keys_distinct(self@)
    }

    /// An empty cache of at most `capacity` entries.
    pub fn new(capacity: usize) -> (r: Self)
        requires
            capacity > 0,
        ensures
            r.wf(),
            r@ == Seq::<(u64, V)>::empty(),
            r.spec_capacity() == capacity,
            r.spec_stats().spec_evictions() == 0,
            r.spec_stats().spec_hits() == 0,
            r.spec_stats().spec_misses() == 0,
    {
        Lru { entries: Vec::new(), capacity, stats: Stats { evictions: 0, hits: 0, misses: 0 } }
    }

    /// The statistics of the cache.
    pub fn stats(&self) -> (r: &Stats)
        ensures
            *r == self.spec_stats(),
    {
        &self.stats
    }

    /// The position of the entry of `key`.
    fn find(&self, key: u64) -> (r: Option<usize>)
        ensures
            r matches Some(i) ==> i < self@.len() && self@[i as int].0 == key,
            r is None ==> key_position(self@, key) is None,
    {
        let mut i: usize = 0;
        while i < self.entries.len()
            invariant
                i <= self.entries@.len(),
                forall|j: int| 0 <= j < i ==> (#[trigger] self.entries@[j]).0 != key,
            decreases self.entries@.len() - i,
        {
            if self.entries[i].0 == key {
                return Some(i);
            }
            i = i + 1;
        }
        None
    }

    /// Stores `value` under `key`, which becomes the most recently used entry. Where `key` is
    /// new and the cache is full, evicts the least recently used entry and returns it;
    /// returns `None` otherwise.
    pub fn insert(&mut self, key: u64, value: V) -> (r: Option<(u64, V)>)
        requires
            old(self).wf(),
            old(self).spec_stats().spec_evictions() < usize::MAX,
        ensures
            final(self).wf(),
            (final(self)@, r) == spec_insert(old(self)@, old(self).spec_capacity(), key, value),
            final(self).spec_capacity() == old(self).spec_capacity(),
            final(self).spec_stats().spec_hits() == old(self).spec_stats().spec_hits(),
            final(self).spec_stats().spec_misses() == old(self).spec_stats().spec_misses(),
            final(self).spec_stats().spec_evictions() == old(self).spec_stats().spec_evictions()
                + if r is Some { 1int } else { 0int },
    {
        match self.find(key) {
            Some(i) => {
                proof {
                    lemma_position_unique(self@, key, i as int);
                }
                self.entries.remove(i);
                self.entries.push((key, value));
                proof {
                    lemma_distinct_after_move(old(self)@, i as int, (key, value));
                }
                None
            },
            None => {
                if self.entries.len() >= self.capacity {
                    let evicted = self.entries.remove(0);
                    self.entries.push((key, value));
                    self.stats.evictions = self.stats.evictions + 1;
                    proof {
                        assert(old(self)@.remove(0) =~= old(self)@.subrange(1, old(self)@.len() as int));
                        lemma_distinct_after_evict(old(self)@, key, value);
                    }
                    Some(evicted)
                } else {
                    self.entries.push((key, value));
                    proof {
                        lemma_distinct_after_push(old(self)@, key, value);
                    }
                    None
                }
            },
        }
    }

    /// The value stored under `key`, whose entry becomes the most recently used; `None`
    /// where no entry has that key. Counts a hit or a miss.
    pub fn get(&mut self, key: u64) -> (r: Option<V>)
        requires
            old(self).wf(),
            old(self).spec_stats().spec_hits() < usize::MAX,
            old(self).spec_stats().spec_misses() < usize::MAX,
        ensures
            final(self).wf(),
            final(self)@ == spec_touch(old(self)@, key),
            final(self).spec_capacity() == old(self).spec_capacity(),
            match spec_lookup(old(self)@, key) {
                Some(v) => r matches Some(c) && cloned::<V>(v, c)
                    && final(self).spec_stats().spec_hits() == old(self).spec_stats().spec_hits() + 1
                    && final(self).spec_stats().spec_misses() == old(self).spec_stats().spec_misses(),
                None => r is None
                    && final(self).spec_stats().spec_misses() == old(self).spec_stats().spec_misses() + 1
                    && final(self).spec_stats().spec_hits() == old(self).spec_stats().spec_hits(),
            },
            final(self).spec_stats().spec_evictions() == old(self).spec_stats().spec_evictions(),
    {
        match self.find(key) {
            Some(i) => {
                proof {
                    lemma_position_unique(self@, key, i as int);
                }
                let entry = self.entries.remove(i);
                let value = entry.1.clone();
                self.entries.push(entry);
                self.stats.hits = self.stats.hits + 1;
                proof {
                    lemma_distinct_after_move(old(self)@, i as int, old(self)@[i as int]);
                }
                Some(value)
            },
            None => {
                self.stats.misses = self.stats.misses + 1;
                None
            },
        }
    }

    /// Removes the entry of `key` and returns it; `None` where no entry has that key.
    pub fn remove(&mut self, key: u64) -> (r: Option<(u64, V)>)
        requires
            old(self).wf(),
        ensures
            final(self).wf(),
            final(self).spec_capacity() == old(self).spec_capacity(),
            final(self).spec_stats() == old(self).spec_stats(),
            match key_position(old(self)@, key) {
                Some(i) => r == Some(old(self)@[i]) && final(self)@ == old(self)@.remove(i),
                None => r is None && final(self)@ == old(self)@,
            },
    {
        match self.find(key) {
            Some(i) => {
                proof {
                    lemma_position_unique(self@, key, i as int);
                }
                let entry = self.entries.remove(i);
                proof {
                    lemma_distinct_after_remove(old(self)@, i as int);
                }
                Some(entry)
            },
            None => None,
        }
    }
}

/// In entries with distinct keys, an entry of `key` is the one that `key_position` finds.
proof fn lemma_position_unique<V>(entries: Seq<(u64, V)>, key: u64, i: int)
    requires
        keys_distinct(entries),
        0 <= i < entries.len(),
        entries[i].0 == key,
    ensures
        key_position(entries, key) == Some(i),
{
    let j = choose|j: int| 0 <= j < entries.len() && (#[trigger] entries[j]).0 == key;
    if j < i {
        assert(entries[j].0 != entries[i].0);
    } else if i < j {
        assert(entries[i].0 != entries[j].0);
    }
}

/// Removing an entry keeps keys distinct.
proof fn lemma_distinct_after_remove<V>(entries: Seq<(u64, V)>, i: int)
    requires
        keys_distinct(entries),
        0 <= i < entries.len(),
    ensures
        keys_distinct(entries.remove(i)),
{
    let r = entries.remove(i);
    assert forall|a: int, b: int| 0 <= a < b < r.len() implies (#[trigger] r[a]).0 != (#[trigger] r[b]).0 by {
        let a0 = if a < i { a } else { a + 1 };
        let b0 = if b < i { b } else { b + 1 };
        assert(r[a] == entries[a0] && r[b] == entries[b0]);
        assert(entries[a0].0 != entries[b0].0);
    }
}

/// Moving an entry to the end, with a value of the same key, keeps keys distinct.
proof fn lemma_distinct_after_move<V>(entries: Seq<(u64, V)>, i: int, entry: (u64, V))
    requires
        keys_distinct(entries),
        0 <= i < entries.len(),
        entry.0 == entries[i].0,
    ensures
        keys_distinct(entries.remove(i).push(entry)),
{
    lemma_distinct_after_remove(entries, i);
    let r = entries.remove(i);
    let p = r.push(entry);
    assert forall|a: int, b: int| 0 <= a < b < p.len() implies (#[trigger] p[a]).0 != (#[trigger] p[b]).0 by {
        if b == r.len() {
            let a0 = if a < i { a } else { a + 1 };
            assert(p[a] == entries[a0]);
            if a0 < i {
                assert(entries[a0].0 != entries[i].0);
            } else {
                assert(entries[i].0 != entries[a0].0);
            }
        } else {
            assert(p[a] == r[a] && p[b] == r[b]);
        }
    }
}

/// Adding an entry of a new key keeps keys distinct.
proof fn lemma_distinct_after_push<V>(entries: Seq<(u64, V)>, key: u64, value: V)
    requires
        keys_distinct(entries),
        key_position(entries, key) is None,
    ensures
        keys_distinct(entries.push((key, value))),
{
    let p = entries.push((key, value));
    assert forall|a: int, b: int| 0 <= a < b < p.len() implies (#[trigger] p[a]).0 != (#[trigger] p[b]).0 by {
        if b == entries.len() {
            assert(p[a] == entries[a]);
            if entries[a].0 == key {
                assert(exists|i: int| 0 <= i < entries.len() && (#[trigger] entries[i]).0 == key);
            }
        } else {
            assert(p[a] == entries[a] && p[b] == entries[b]);
        }
    }
}

/// Evicting the first entry and adding an entry of a new key keeps keys distinct.
proof fn lemma_distinct_after_evict<V>(entries: Seq<(u64, V)>, key: u64, value: V)
    requires
        keys_distinct(entries),
        entries.len() > 0,
        key_position(entries, key) is None,
    ensures
        keys_distinct(entries.subrange(1, entries.len() as int).push((key, value))),
{
    lemma_distinct_after_remove(entries, 0);
    assert(entries.remove(0) =~= entries.subrange(1, entries.len() as int));
    let r = entries.subrange(1, entries.len() as int);
    if key_position(r, key) is Some {
        let j = choose|j: int| 0 <= j < r.len() && (#[trigger] r[j]).0 == key;
        assert(entries[j + 1].0 == key);
        assert(exists|i: int| 0 <= i < entries.len() && (#[trigger] entries[i]).0 == key);
    }
    lemma_distinct_after_push(r, key, value);
}

/// What a lookup gives back after a store: the value stored, whatever the cache held and
/// whatever it evicted.
pub proof fn lemma_lookup_after_insert<V>(entries: Seq<(u64, V)>, capacity: int, key: u64, value: V)
    requires
        keys_distinct(entries),
        capacity > 0,
        entries.len() <= capacity,
    ensures
        spec_lookup(spec_insert(entries, capacity, key, value).0, key) == Some(value),
        spec_insert(entries, capacity, key, value).0.len() <= capacity,
        keys_distinct(spec_insert(entries, capacity, key, value).0),
{
    let after = spec_insert(entries, capacity, key, value).0;
    match key_position(entries, key) {
        Some(i) => {
            lemma_distinct_after_move(entries, i, (key, value));
        },
        None => {
            if entries.len() >= capacity {
                lemma_distinct_after_evict(entries, key, value);
            } else {
                lemma_distinct_after_push(entries, key, value);
            }
        },
    }
    lemma_position_unique(after, key, after.len() - 1);
}

/// A store leaves the values of the other keys that stay in the cache as they were, and only
/// the least recently used entry leaves it.
pub proof fn lemma_insert_keeps_others<V>(entries: Seq<(u64, V)>, capacity: int, key: u64, value: V, other: u64)
    requires
        keys_distinct(entries),
        capacity > 0,
        entries.len() <= capacity,
        other != key,
    ensures
        ({
            let (after, evicted) = spec_insert(entries, capacity, key, value);
            match evicted {
                Some(e) => e == entries[0] && (other == e.0 ==> spec_lookup(after, other) is None)
                    && (other != e.0 ==> spec_lookup(after, other) == spec_lookup(entries, other)),
                None => spec_lookup(after, other) == spec_lookup(entries, other),
            }
        }),
{
    let (after, evicted) = spec_insert(entries, capacity, key, value);
    lemma_lookup_after_insert(entries, capacity, key, value);
    match key_position(entries, other) {
        Some(j) => {
            let j0 = choose|j: int| 0 <= j < entries.len() && (#[trigger] entries[j]).0 == other;
            lemma_position_unique(entries, other, j0);
            let shifted = match key_position(entries, key) {
                Some(i) => if j0 < i { j0 } else { j0 - 1 },
                None => if entries.len() >= capacity { j0 - 1 } else { j0 },
            };
            if evicted is Some && j0 == 0 {
                assert(other == entries[0].0);
                if key_position(after, other) is Some {
                    let k = choose|k: int| 0 <= k < after.len() && (#[trigger] after[k]).0 == other;
                    if k < after.len() - 1 {
                        assert(after[k] == entries[k + 1]);
                        assert(entries[0].0 != entries[k + 1].0);
                    }
                }
            } else {
                match key_position(entries, key) {
                    Some(i) => {
                        assert(j0 != i);
                        assert(after[shifted] == entries[j0]);
                    },
                    None => {
                        assert(after[shifted] == entries[j0]);
                    },
                }
                lemma_position_unique(after, other, shifted);
            }
        },
        None => {
            if key_position(after, other) is Some {
                let k = choose|k: int| 0 <= k < after.len() && (#[trigger] after[k]).0 == other;
                assert(k < after.len() - 1);
                match key_position(entries, key) {
                    Some(i) => {
                        let k0 = if k < i { k } else { k + 1 };
                        assert(after[k] == entries[k0]);
                    },
                    None => {
                        if entries.len() >= capacity {
                            assert(after[k] == entries[k + 1]);
                        } else {
                            assert(after[k] == entries[k]);
                        }
                    },
                }
            }
        },
    }
}

} // verus!
