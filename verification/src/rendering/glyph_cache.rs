//! Least-recently-used cache of rasterised glyphs.
//!
//! Glyphs are rasterised the first time they are drawn and kept, keyed by
//! character and pixel size, so that a large font costs memory only for the
//! glyphs actually shown.  Every access stamps the entry with a monotonic
//! counter; when a new glyph does not fit, the entries with the lowest
//! stamps (the least recently used ones) make room for it.

use std::collections::BTreeMap;

use vstd::prelude::*;
use vstd::std_specs::iter::IteratorSpec;

verus! {

/// Default maximum number of cached glyphs before LRU eviction kicks in.
pub const DEFAULT_MAX_CACHE_SIZE: usize = 256;

/// A glyph cache holding values of type `V`, keyed by a 64-bit glyph key
/// (the character in the high half, the pixel size's bit pattern in the low
/// half).
pub struct GlyphCache<V> {
    /// Key to (stamp of the last access, glyph).
    entries: BTreeMap<u64, (u64, V)>,
    /// Monotonic counter incremented on every access.
    access_counter: u64,
    /// Size limit: a miss first evicts entries until fewer remain.
    max_cache_size: usize,
}

/// `key` holds the lowest stamp of the cache: it is the least recently used
/// entry.
pub open spec fn is_lru<V>(entries: Map<u64, (u64, V)>, key: u64) -> bool {
    &&& entries.contains_key(key)
    &&& forall|k: u64| #[trigger] entries.contains_key(k) ==> entries[key].0 <= entries[k].0
}

/// Number of entries a miss keeps from a cache of `len` entries with size
/// limit `max`: the cache is cut back until it is below its limit (or
/// empty), so that the new glyph fits.
pub open spec fn kept_on_miss(len: nat, max: nat) -> nat {
    if len < max {
        len
    } else if max == 0 {
        0
    } else {
        (max - 1) as nat
    }
}

/// Number of entries after an access to a cache of `len` entries with
/// size limit `max`: a hit keeps the count; a miss keeps
/// `min(len, max - 1)` entries and adds the new one.
pub open spec fn len_after_access(len: nat, max: nat, hit: bool) -> nat {
    if hit {
        len
    } else {
        kept_on_miss(len, max) + 1
    }
}

/// `kept` holds the most recently used entries of `entries`: it is part of
/// `entries`, and every entry left out is older than every entry kept.
pub open spec fn keeps_most_recent<V>(entries: Map<u64, (u64, V)>, kept: Map<u64, (u64, V)>) -> bool {
    &&& kept.submap_of(entries)
    &&& forall|e: u64, k: u64|
        #![trigger entries[e], kept[k]]
        entries.contains_key(e) && !kept.contains_key(e) && kept.contains_key(k) ==> entries[e].0
            < kept[k].0
}

/// The cache never stays above its limit past a miss: a miss leaves at most
/// `max` glyphs whatever the size before (when the limit admits one glyph),
/// and a cache within its limit stays within it whatever is accessed.
pub proof fn cache_stays_within_limit(len: nat, max: nat, hit: bool)
    requires
        max >= 1,
    ensures
        len_after_access(len, max, false) <= max,
        len <= max ==> len_after_access(len, max, hit) <= max,
{
}

impl<V> GlyphCache<V> {
    /// The cached entries: key to (stamp of the last access, glyph).
    pub closed spec fn entries(&self) -> Map<u64, (u64, V)> {
        self.entries@
    }

    /// The access counter: the stamp the next access gets.
    pub closed spec fn counter(&self) -> u64 {
        self.access_counter
    }

    /// The size limit.
    pub closed spec fn max_size(&self) -> usize {
        self.max_cache_size
    }

    /// Every stamp was handed out by an earlier access, and no two entries
    /// share one.
    pub open spec fn wf(&self) -> bool {
        &&& self.entries().dom().finite()
        &&& forall|k: u64| #[trigger]
            self.entries().contains_key(k) ==> self.entries()[k].0 < self.counter()
        &&& forall|k1: u64, k2: u64|
            #![trigger self.entries()[k1], self.entries()[k2]]
            self.entries().contains_key(k1) && self.entries().contains_key(k2) && k1 != k2
                ==> self.entries()[k1].0 != self.entries()[k2].0
    }

    /// An empty cache holding at most [`DEFAULT_MAX_CACHE_SIZE`] glyphs.
    pub fn new() -> (c: GlyphCache<V>)
        ensures
            c.wf(),
            c.entries() == Map::<u64, (u64, V)>::empty(),
            c.counter() == 0,
            c.max_size() == DEFAULT_MAX_CACHE_SIZE,
    {
        GlyphCache { entries: BTreeMap::new(), access_counter: 0, max_cache_size: DEFAULT_MAX_CACHE_SIZE }
    }

    /// Set the maximum number of cached glyphs.
    ///
    /// Does not shrink the cache immediately: excess entries are evicted
    /// lazily, least recently used first, on the next insertion.
    pub fn set_max_cache_size(&mut self, max: usize)
        ensures
            final(self).max_size() == max,
            final(self).entries() == old(self).entries(),
            final(self).counter() == old(self).counter(),
    {
        self.max_cache_size = max;
    }

    /// Number of cached glyphs.
    pub fn len(&self) -> (n: usize)
        ensures
            n == self.entries().len(),
    {
        self.entries.len()
    }

    /// The number of accesses so far, which stamps the next one.
    pub fn access_count(&self) -> (n: u64)
        ensures
            n == self.counter(),
    {
        self.access_counter
    }

    /// Evict the single least-recently-used entry; nothing when empty.
    fn evict_lru(&mut self)
        requires
            old(self).wf(),
        ensures
            final(self).wf(),
            final(self).counter() == old(self).counter(),
            final(self).max_size() == old(self).max_size(),
            old(self).entries().len() == 0 ==> final(self).entries() == old(self).entries(),
            old(self).entries().len() > 0 ==> exists|k: u64|
                is_lru(old(self).entries(), k) && final(self).entries() == old(
                    self,
                ).entries().remove(k),
    {
        let ghost m = self.entries@;
        let ghost pairs = vstd::std_specs::btree::spec_btree_map_iter(&self.entries).remaining();
        let ghost mut seen: int = 0;
        let mut best: Option<(u64, u64)> = None;
        for item in it: self.entries.iter()
            invariant
                m == self.entries@,
                it.seq() == pairs,
                seen == it.index(),
                best is None <==> seen == 0,
                best matches Some((bk, bs)) ==> {
                    &&& m.contains_key(bk)
                    &&& m[bk].0 == bs
                    &&& forall|j: int| 0 <= j < seen ==> bs <= (*#[trigger] pairs[j].1).0
                },
        {
            let (k, e) = item;
            let better = match best {
                None => true,
                Some((_, s)) => e.0 < s,
            };
            if better {
                best = Some((*k, e.0));
            }
            proof {
                seen = seen + 1;
            }
        }
        assert(seen == pairs.len());
        match best {
            Some((k, _)) => {
                proof {
                    assert forall|j: u64| #[trigger] m.contains_key(j) implies m[k].0 <= m[j].0 by {
                        assert(pairs.contains((&j, &m[j])));
                        let idx = choose|idx: int| 0 <= idx < pairs.len() && pairs[idx] == (&j, &m[j]);
                        assert(m[k].0 <= (*pairs[idx].1).0);
                    }
                }
                self.entries.remove(&k);
                proof {
                    assert(self.entries@ == m.remove(k));
                }
            },
            None => {
                proof {
                    if m.len() > 0 {
                        assert(pairs.len() == m.dom().len());
                    }
                }
            },
        }
    }

    /// Ensure the glyph under `key` is cached, rasterising it with
    /// `rasterize` when it is not, and mark it as the most recently used.
    ///
    /// On a miss, least recently used entries are evicted until the cache is
    /// below its limit (or empty), then the new glyph is added.
    pub fn ensure_cached<F: FnOnce() -> V>(&mut self, key: u64, rasterize: F)
        requires
            old(self).wf(),
            old(self).counter() < u64::MAX,
            call_requires(rasterize, ()),
        ensures
            final(self).wf(),
            final(self).counter() == old(self).counter() + 1,
            final(self).max_size() == old(self).max_size(),
            final(self).entries().contains_key(key),
            final(self).entries().len() == len_after_access(
                old(self).entries().len(),
                old(self).max_size() as nat,
                old(self).entries().contains_key(key),
            ),
            old(self).entries().contains_key(key) ==> final(self).entries() == old(
                self,
            ).entries().insert(key, (old(self).counter(), old(self).entries()[key].1)),
            !old(self).entries().contains_key(key) ==> exists|v: V, kept: Map<u64, (u64, V)>|
                {
                    &&& #[trigger] call_ensures(rasterize, (), v)
                    &&& #[trigger] keeps_most_recent(old(self).entries(), kept)
                    &&& kept.len() == kept_on_miss(
                        old(self).entries().len(),
                        old(self).max_size() as nat,
                    )
                    &&& final(self).entries() == kept.insert(key, (old(self).counter(), v))
                },
    {
        let stamp = self.access_counter;
        self.access_counter = self.access_counter + 1;
        match self.entries.remove(&key) {
            Some((_, glyph)) => {
                self.entries.insert(key, (stamp, glyph));
                proof {
                    assert(old(self).entries().contains_key(key));
                    assert(self.entries@ == old(self).entries@.insert(key, (stamp, old(self).entries@[key].1)));
                }
            },
            None => {
                assert(self.entries@ =~= old(self).entries@);
                let ghost m0 = self.entries@;
                let ghost len0 = m0.len();
                let max = self.max_cache_size;
                while self.entries.len() >= max && self.entries.len() > 0
                    invariant
                        self.wf(),
                        self.counter() == old(self).counter() + 1,
                        self.max_size() == max,
                        max == old(self).max_size(),
                        m0 == old(self).entries(),
                        len0 == m0.len(),
                        !self.entries().contains_key(key),
                        keeps_most_recent(m0, self.entries()),
                        self.entries().len() <= len0,
                        self.entries().len() == len0 || self.entries().len() + 1 >= max,
                    decreases self.entries().len(),
                {
                    let ghost m = self.entries@;
                    self.evict_lru();
                    proof {
                        let k = choose|k: u64| is_lru(m, k) && self.entries@ == m.remove(k);
                        assert(self.entries@ == m.remove(k));
                        assert(m.dom().finite());
                        assert(self.entries().len() == m.len() - 1);
                        assert forall|e: u64, kk: u64|
                            m0.contains_key(e) && !self.entries().contains_key(e)
                                && self.entries().contains_key(kk) implies #[trigger] m0[e].0
                            < #[trigger] self.entries()[kk].0 by {
                            assert(m.contains_key(kk) && kk != k);
                            if m.contains_key(e) {
                                assert(e == k);
                                assert(m[k].0 <= m[kk].0);
                                assert(m[k].0 != m[kk].0);
                            } else {
                                assert(m0[e].0 < m[kk].0);
                            }
                        }
                    }
                }
                let ghost m1 = self.entries@;
                proof {
                    assert forall|k: u64| #[trigger] m1.contains_key(k) implies m1[k].0 < stamp by {
                        assert(m0.contains_key(k) && m0[k] == m1[k]);
                        assert(old(self).entries().contains_key(k));
                    }
                }
                let glyph = rasterize();
                self.entries.insert(key, (stamp, glyph));
                proof {
                    assert forall|k1: u64, k2: u64|
                        self.entries().contains_key(k1) && self.entries().contains_key(k2) && k1 != k2
                            implies #[trigger] self.entries()[k1].0 != #[trigger] self.entries()[k2].0 by {
                        if k1 != key && k2 != key {
                            assert(m1.contains_key(k1) && m1.contains_key(k2));
                        } else if k1 == key {
                            assert(m1.contains_key(k2));
                        } else {
                            assert(m1.contains_key(k1));
                        }
                    }
                    assert(m1.len() == kept_on_miss(len0, max as nat));
                    assert(call_ensures(rasterize, (), glyph));
                    assert(self.entries() == m1.insert(key, (old(self).counter(), glyph)));
                    assert(self.entries().len() == m1.len() + 1);
                }
            },
        }
    }

    /// The cached glyph under `key`, if any.
    pub fn get(&self, key: u64) -> (r: Option<&V>)
        ensures
            match r {
                Some(v) => self.entries().contains_key(key) && *v == self.entries()[key].1,
                None => !self.entries().contains_key(key),
            },
    {
        match self.entries.get(&key) {
            Some(e) => Some(&e.1),
            None => None,
        }
    }
}

} // verus!
