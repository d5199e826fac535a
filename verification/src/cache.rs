//! A bounded in-memory key/value cache with expiry. Entries older than the
//! time-to-live are treated as absent; insertion at capacity first purges
//! expired entries and then, if still full, the single oldest entry, so the
//! cache never holds more than its configured maximum.
//!
//! Time is passed in by the caller as milliseconds on a monotonic clock.
use vstd::prelude::*;
use vstd::pervasive::cloned;
use crate::numeric::str_eq;

verus! {

/// A cached value and the instant it was inserted, in milliseconds.
pub struct CacheEntry<V> {
    pub value: V,
    pub inserted_at: u64,
}

/// Simple in-memory cache with TTL and a capacity bound.
pub struct Cache<V> {
    pub entries: Vec<(String, CacheEntry<V>)>,
    pub ttl_ms: u64,
    pub max_entries: usize,
}

/// Whether an entry is still fresh at `now`.
pub open spec fn entry_fresh<V>(e: (String, CacheEntry<V>), now: int, ttl_ms: int) -> bool {
    now < e.1.inserted_at + ttl_ms
}

/// The index of the first entry with the given key, if any.
pub open spec fn find_key<V>(s: Seq<(String, CacheEntry<V>)>, key: Seq<char>) -> Option<int>
    decreases s.len(),
{
    if s.len() == 0 {
        None
    } else if s[0].0@ == key {
        Some(0)
    } else {
        match find_key(s.drop_first(), key) {
            Some(i) => Some(i + 1),
            None => None,
        }
    }
}

/// No two entries share a key.
pub open spec fn keys_unique<V>(s: Seq<(String, CacheEntry<V>)>) -> bool {
    forall|i: int, j: int| 0 <= i < j < s.len() ==> (#[trigger] s[i]).0@ != (#[trigger] s[j]).0@
}

/// The entries that are still fresh at `now`, in their original order.
pub open spec fn keep_fresh<V>(
    s: Seq<(String, CacheEntry<V>)>,
    now: int,
    ttl_ms: int,
) -> Seq<(String, CacheEntry<V>)>
    decreases s.len(),
{
    if s.len() == 0 {
        s
    } else if entry_fresh(s.last(), now, ttl_ms) {
        keep_fresh(s.drop_last(), now, ttl_ms).push(s.last())
    } else {
        keep_fresh(s.drop_last(), now, ttl_ms)
    }
}

/// Whether `i` is the position of the first entry with the oldest
/// insertion time.
pub open spec fn first_oldest<V>(s: Seq<(String, CacheEntry<V>)>, i: int) -> bool {
    &&& 0 <= i < s.len()
    &&& forall|j: int| 0 <= j < s.len() ==> s[i].1.inserted_at <= (#[trigger] s[j]).1.inserted_at
    &&& forall|j: int| 0 <= j < i ==> s[i].1.inserted_at < (#[trigger] s[j]).1.inserted_at
}

/// How eviction relates the held entries to their state before an insert:
/// below capacity nothing changes; at capacity the expired entries go, and
/// if that does not make room, so does the first oldest survivor.
pub open spec fn evict_rel<V>(
    s: Seq<(String, CacheEntry<V>)>,
    now: int,
    ttl_ms: int,
    max: int,
    g: Seq<(String, CacheEntry<V>)>,
) -> bool {
    if s.len() >= max {
        let f = keep_fresh(s, now, ttl_ms);
        if f.len() >= max {
            exists|i: int| first_oldest(f, i) && g == f.remove(i)
        } else {
            g == f
        }
    } else {
        g == s
    }
}

/// Insertion of a pair into entries: an existing entry for the key is
/// overwritten in place, otherwise the pair goes to the end.
pub open spec fn upsert<V>(
    g: Seq<(String, CacheEntry<V>)>,
    pair: (String, CacheEntry<V>),
) -> Seq<(String, CacheEntry<V>)> {
    match find_key(g, pair.0@) {
        Some(i) => g.update(i, pair),
        None => g.push(pair),
    }
}

proof fn lemma_keep_fresh_sound<V>(s: Seq<(String, CacheEntry<V>)>, now: int, ttl_ms: int)
    ensures
        keep_fresh(s, now, ttl_ms).len() <= s.len(),
        forall|i: int|
            0 <= i < keep_fresh(s, now, ttl_ms).len() ==> exists|j: int|
                0 <= j < s.len() && s[j] == #[trigger] keep_fresh(s, now, ttl_ms)[i],
    decreases s.len(),
{
    if s.len() > 0 {
        lemma_keep_fresh_sound(s.drop_last(), now, ttl_ms);
        let kf = keep_fresh(s, now, ttl_ms);
        let kd = keep_fresh(s.drop_last(), now, ttl_ms);
        assert(forall|j: int| 0 <= j < s.len() - 1 ==> #[trigger] s.drop_last()[j] == s[j]);
        assert forall|i: int| 0 <= i < kf.len() implies exists|j: int|
            0 <= j < s.len() && s[j] == #[trigger] kf[i] by {
            if i < kd.len() {
                let j = choose|j: int| 0 <= j < s.len() - 1 && s.drop_last()[j] == #[trigger] kd[i];
                assert(s[j] == kf[i]);
            } else {
                assert(kf[i] == s[s.len() - 1]);
            }
        }
    }
}

/// Purging keeps keys unique because it keeps a subsequence.
proof fn lemma_keep_fresh_unique<V>(s: Seq<(String, CacheEntry<V>)>, now: int, ttl_ms: int)
    requires
        keys_unique(s),
    ensures
        keys_unique(keep_fresh(s, now, ttl_ms)),
        forall|k: int|
            0 <= k < keep_fresh(s, now, ttl_ms).len() ==> find_key(
                s,
                (#[trigger] keep_fresh(s, now, ttl_ms)[k]).0@,
            ) is Some,
    decreases s.len(),
{
    let kf = keep_fresh(s, now, ttl_ms);
    if s.len() > 0 {
        assert(keys_unique(s.drop_last())) by {
            assert(forall|j: int| 0 <= j < s.len() - 1 ==> #[trigger] s.drop_last()[j] == s[j]);
        }
        lemma_keep_fresh_unique(s.drop_last(), now, ttl_ms);
        let kd = keep_fresh(s.drop_last(), now, ttl_ms);
        assert(forall|j: int| 0 <= j < s.len() - 1 ==> #[trigger] s.drop_last()[j] == s[j]);
        assert forall|k: int| 0 <= k < kf.len() implies find_key(s, (#[trigger] kf[k]).0@)
            is Some by {
            if k < kd.len() {
                lemma_find_key_extend_last(s, kf[k].0@);
            } else {
                lemma_find_key_some(s, s.len() - 1);
            }
        }
        if entry_fresh(s.last(), now, ttl_ms) {
            assert forall|i: int, j: int| 0 <= i < j < kf.len() implies (#[trigger] kf[i]).0@ != (
            #[trigger] kf[j]).0@ by {
                if j == kf.len() - 1 {
                    // kf[i] comes from s.drop_last(), whose keys all differ
                    // from the key of s.last().
                    lemma_keep_fresh_sound(s.drop_last(), now, ttl_ms);
                    let x = choose|x: int|
                        0 <= x < s.len() - 1 && s.drop_last()[x] == #[trigger] kd[i];
                    assert(s[x] == kd[i]);
                    assert(s[x].0@ != s[s.len() - 1].0@);
                }
            }
        }
    }
}

/// If an entry with a key exists somewhere in `s`, `find_key` finds one.
proof fn lemma_find_key_some<V>(s: Seq<(String, CacheEntry<V>)>, i: int)
    requires
        0 <= i < s.len(),
    ensures
        find_key(s, s[i].0@) is Some,
    decreases s.len(),
{
    if s[0].0@ != s[i].0@ {
        assert(s.drop_first()[i - 1] == s[i]);
        lemma_find_key_some(s.drop_first(), i - 1);
    }
}

/// A key found among all but the last entry is found in the whole.
proof fn lemma_find_key_extend_last<V>(s: Seq<(String, CacheEntry<V>)>, key: Seq<char>)
    requires
        s.len() > 0,
        find_key(s.drop_last(), key) is Some,
    ensures
        find_key(s, key) is Some,
    decreases s.len(),
{
    if s.len() > 1 && s[0].0@ != key {
        assert(s.drop_last().drop_first() =~= s.drop_first().drop_last());
        lemma_find_key_extend_last(s.drop_first(), key);
    }
}

proof fn lemma_find_key_present<V>(s: Seq<(String, CacheEntry<V>)>, key: Seq<char>, i: int)
    requires
        0 <= i < s.len(),
        s[i].0@ == key,
        keys_unique(s),
    ensures
        find_key(s, key) == Some(i),
    decreases s.len(),
{
    if s[0].0@ == key {
        assert(i == 0);
    } else {
        assert(s.drop_first()[i - 1] == s[i]);
        assert(keys_unique(s.drop_first())) by {
            assert(forall|x: int|
                0 <= x < s.len() - 1 ==> #[trigger] s.drop_first()[x] == s[x + 1]);
        }
        lemma_find_key_present(s.drop_first(), key, i - 1);
    }
}

proof fn lemma_find_key_none_means_absent<V>(s: Seq<(String, CacheEntry<V>)>, key: Seq<char>)
    requires
        find_key(s, key) is None,
    ensures
        forall|j: int| 0 <= j < s.len() ==> (#[trigger] s[j]).0@ != key,
    decreases s.len(),
{
    if s.len() > 0 {
        lemma_find_key_none_means_absent(s.drop_first(), key);
        assert forall|j: int| 0 <= j < s.len() implies (#[trigger] s[j]).0@ != key by {
            if j >= 1 {
                assert(s.drop_first()[j - 1] == s[j]);
            }
        }
    }
}

impl<V: Clone> Cache<V> {
    /// Every key occurs once, the size bound is kept, and the bound is positive.
    pub open spec fn wf(self) -> bool {
        &&& keys_unique(self.entries@)
        &&& self.entries@.len() <= self.max_entries
        &&& self.max_entries >= 1
    }

    /// The index of the entry for `key`, if one is held (fresh or not).
    pub open spec fn spec_find(self, key: Seq<char>) -> Option<int> {
        find_key(self.entries@, key)
    }

    /// Create a new cache with the specified TTL (in seconds) and capacity.
    pub fn new(ttl_secs: u64, max_entries: usize) -> (r: Self)
        requires
            ttl_secs <= 0xffff_ffff,
            max_entries >= 1,
        ensures
            r.wf(),
            r.entries@.len() == 0,
            r.ttl_ms == ttl_secs * 1000,
            r.max_entries == max_entries,
    {
        Cache { entries: Vec::new(), ttl_ms: ttl_secs * 1000, max_entries }
    }

    fn find_index(&self, key: &str) -> (r: Option<usize>)
        ensures
            r matches Some(i) ==> self.spec_find(key@) == Some(i as int) && i
                < self.entries@.len() && self.entries@[i as int].0@ == key@,
            r is None ==> self.spec_find(key@) is None,
    {
        let mut i: usize = 0;
        proof {
            assert(self.entries@.skip(0) =~= self.entries@);
        }
        while i < self.entries.len()
            invariant
                i <= self.entries@.len(),
                forall|j: int| 0 <= j < i ==> (#[trigger] self.entries@[j]).0@ != key@,
                find_key(self.entries@.skip(i as int), key@) matches Some(x) ==> find_key(
                    self.entries@,
                    key@,
                ) == Some(x + i),
                find_key(self.entries@.skip(i as int), key@) is None ==> find_key(
                    self.entries@,
                    key@,
                ) is None,
            decreases self.entries@.len() - i,
        {
            let hit = str_eq(self.entries[i].0.as_str(), key);
            proof {
                assert(self.entries@.skip(i as int)[0] == self.entries@[i as int]);
                assert(self.entries@.skip(i as int).drop_first() =~= self.entries@.skip(
                    i as int + 1,
                ));
            }
            if hit {
                return Some(i);
            }
            i = i + 1;
        }
        proof {
            assert(self.entries@.skip(i as int) =~= Seq::<(String, CacheEntry<V>)>::empty());
        }
        None
    }

    /// Get a value from the cache if it exists and has not expired; a
    /// stale entry is removed on the way out.
    pub fn get(&mut self, key: &str, now: u64) -> (r: Option<V>)
        requires
            old(self).wf(),
        ensures
            final(self).wf(),
            final(self).ttl_ms == old(self).ttl_ms && final(self).max_entries == old(self).max_entries,
            match old(self).spec_find(key@) {
                Some(i) => {
                    if entry_fresh(old(self).entries@[i], now as int, old(self).ttl_ms as int) {
                        &&& r matches Some(v) && cloned(old(self).entries@[i].1.value, v)
                        &&& final(self).entries@ == old(self).entries@
                    } else {
                        &&& r is None
                        &&& final(self).entries@ == old(self).entries@.remove(i)
                    }
                },
                None => r is None && final(self).entries@ == old(self).entries@,
            },
    {
        match self.find_index(key) {
            Some(i) => {
                let t = self.entries[i].1.inserted_at;
                let fresh = if now >= t {
                    now - t < self.ttl_ms
                } else {
                    true
                };
                if fresh {
                    Some(self.entries[i].1.value.clone())
                } else {
                    let ghost pre = self.entries@;
                    self.entries.remove(i);
                    proof {
                        assert(keys_unique(self.entries@)) by {
                            assert(forall|x: int|
                                0 <= x < i ==> #[trigger] self.entries@[x] == pre[x]);
                            assert(forall|x: int|
                                i <= x < self.entries@.len() ==> #[trigger] self.entries@[x]
                                    == pre[x + 1]);
                        }
                    }
                    None
                }
            },
            None => None,
        }
    }

    fn purge_expired(&mut self, now: u64)
        requires
            old(self).wf(),
        ensures
            final(self).ttl_ms == old(self).ttl_ms && final(self).max_entries == old(
                self,
            ).max_entries,
            final(self).entries@ == keep_fresh(
                old(self).entries@,
                now as int,
                old(self).ttl_ms as int,
            ),
            final(self).wf(),
    {
        let ghost orig = self.entries@;
        let orig_n = self.entries.len();
        let mut kept: Vec<(String, CacheEntry<V>)> = Vec::new();
        let mut i: usize = 0;
        while self.entries.len() > 0
            invariant
                self.ttl_ms == old(self).ttl_ms,
                self.max_entries == old(self).max_entries,
                orig_n == orig.len(),
                i <= orig_n,
                i + self.entries@.len() == orig.len(),
                self.entries@ =~= orig.skip(i as int),
                kept@ == keep_fresh(orig.take(i as int), now as int, self.ttl_ms as int),
                kept@.len() <= i,
            decreases self.entries@.len(),
        {
            let e = self.entries.remove(0);
            proof {
                assert(e == orig[i as int]);
                assert(self.entries@ =~= orig.skip(i as int + 1));
                assert(orig.take(i as int + 1).drop_last() =~= orig.take(i as int));
                assert(orig.take(i as int + 1).last() == orig[i as int]);
            }
            let t = e.1.inserted_at;
            let fresh = if now >= t {
                now - t < self.ttl_ms
            } else {
                true
            };
            if fresh {
                kept.push(e);
            }
            i = i + 1;
        }
        proof {
            assert(orig.take(i as int) =~= orig);
        }
        self.entries = kept;
        proof {
            lemma_keep_fresh_sound(orig, now as int, self.ttl_ms as int);
            lemma_keep_fresh_unique(orig, now as int, self.ttl_ms as int);
        }
    }

    /// Remove expired entries; if still at capacity, remove the first
    /// entry with the oldest insertion time.
    fn evict_oldest(&mut self, now: u64)
        requires
            old(self).wf(),
        ensures
            final(self).wf(),
            final(self).ttl_ms == old(self).ttl_ms && final(self).max_entries == old(
                self,
            ).max_entries,
            ({
                let f = keep_fresh(old(self).entries@, now as int, old(self).ttl_ms as int);
                if f.len() >= old(self).max_entries {
                    exists|i: int| first_oldest(f, i) && final(self).entries@ == f.remove(i)
                } else {
                    final(self).entries@ == f
                }
            }),
            final(self).entries@.len() < old(self).max_entries,
    {
        self.purge_expired(now);
        let ghost f = self.entries@;
        if self.entries.len() >= self.max_entries {
            let mut oldest: usize = 0;
            let mut k: usize = 1;
            while k < self.entries.len()
                invariant
                    self.entries@.len() >= 1,
                    oldest < k <= self.entries@.len(),
                    forall|j: int|
                        0 <= j < k ==> self.entries@[oldest as int].1.inserted_at <= (
                        #[trigger] self.entries@[j]).1.inserted_at,
                    forall|j: int|
                        0 <= j < oldest ==> self.entries@[oldest as int].1.inserted_at < (
                        #[trigger] self.entries@[j]).1.inserted_at,
                decreases self.entries@.len() - k,
            {
                if self.entries[k].1.inserted_at < self.entries[oldest].1.inserted_at {
                    oldest = k;
                }
                k = k + 1;
            }
            let ghost pre = self.entries@;
            proof {
                assert(first_oldest(pre, oldest as int));
            }
            self.entries.remove(oldest);
            proof {
                assert(self.entries@ == pre.remove(oldest as int));
                assert(keys_unique(self.entries@)) by {
                    assert(forall|x: int|
                        0 <= x < oldest ==> #[trigger] self.entries@[x] == pre[x]);
                    assert(forall|x: int|
                        oldest <= x < self.entries@.len() ==> #[trigger] self.entries@[x] == pre[x
                            + 1]);
                }
            }
        }
    }

    /// Insert a value into the cache. At capacity, expired entries are
    /// purged first; if that is not enough, the single oldest entry is
    /// evicted. An existing entry for the key is overwritten.
    pub fn insert(&mut self, key: String, value: V, now: u64)
        requires
            old(self).wf(),
        ensures
            final(self).wf(),
            final(self).ttl_ms == old(self).ttl_ms && final(self).max_entries == old(
                self,
            ).max_entries,
            final(self).entries@.len() <= final(self).max_entries,
            exists|g: Seq<(String, CacheEntry<V>)>|
                {
                    &&& evict_rel(
                        old(self).entries@,
                        now as int,
                        old(self).ttl_ms as int,
                        old(self).max_entries as int,
                        g,
                    )
                    &&& final(self).entries@ == upsert(
                        g,
                        (key, CacheEntry { value, inserted_at: now }),
                    )
                },
            // The new entry can be found, fresh, under its key.
            final(self).spec_find(key@) matches Some(i) && final(self).entries@[i].1.value == value
                && final(self).entries@[i].1.inserted_at == now && final(self).entries@[i].0
                == key,
    {
        let ghost orig = self.entries@;
        if self.entries.len() >= self.max_entries {
            self.evict_oldest(now);
        }
        let ghost g = self.entries@;
        proof {
            assert(evict_rel(
                orig,
                now as int,
                self.ttl_ms as int,
                self.max_entries as int,
                g,
            ));
        }
        let ghost pair_key = key@;
        let ghost gpair = (key, CacheEntry { value, inserted_at: now });
        match self.find_index(key.as_str()) {
            Some(i) => {
                let ghost pre = self.entries@;
                self.entries.set(i, (key, CacheEntry { value, inserted_at: now }));
                proof {
                    assert(self.entries@ == pre.update(i as int, gpair));
                    assert(keys_unique(self.entries@)) by {
                        assert(forall|j: int|
                            0 <= j < pre.len() && j != i ==> (#[trigger] self.entries@[j])
                                == pre[j]);
                        assert(self.entries@[i as int].0@ == pre[i as int].0@);
                    }
                    assert(self.entries@ == upsert(g, gpair));
                    lemma_find_key_present(self.entries@, pair_key, i as int);
                }
            },
            None => {
                let ghost pre = self.entries@;
                self.entries.push((key, CacheEntry { value, inserted_at: now }));
                proof {
                    assert(self.entries@ == pre.push(gpair));
                    lemma_find_key_none_means_absent(pre, pair_key);
                    assert(keys_unique(self.entries@)) by {
                        assert(forall|j: int|
                            0 <= j < pre.len() ==> (#[trigger] self.entries@[j]) == pre[j]);
                    }
                    assert(self.entries@ == upsert(g, gpair));
                    lemma_find_key_present(self.entries@, pair_key, pre.len() as int);
                }
            },
        }
        proof {
            assert(evict_rel(
                old(self).entries@,
                now as int,
                old(self).ttl_ms as int,
                old(self).max_entries as int,
                g,
            ) && self.entries@ == upsert(g, gpair));
        }
    }

    /// Clear all entries from the cache.
    pub fn clear(&mut self)
        requires
            old(self).wf(),
        ensures
            final(self).wf(),
            final(self).entries@.len() == 0,
            final(self).ttl_ms == old(self).ttl_ms && final(self).max_entries == old(
                self,
            ).max_entries,
    {
        self.entries.clear();
    }

    /// Get the number of entries in the cache.
    pub fn len(&self) -> (r: usize)
        ensures
            r == self.entries@.len(),
    {
        self.entries.len()
    }

    /// Check if the cache is empty.
    pub fn is_empty(&self) -> (r: bool)
        ensures
            r == (self.entries@.len() == 0),
    {
        self.entries.len() == 0
    }
}

} // verus!
