//! The storage layer's result cache: values keyed by text in a `DashMap`,
//! expiring after a time to live, the oldest evicted when the cache is
//! full, with hit, miss and eviction counters. Values are held as their
//! JSON text; times are milliseconds of the caller's clock.

use vstd::prelude::*;
use dashmap::DashMap;
use crate::storage_config::CacheConfig;

verus! {

#[verifier::external_type_specification]
#[verifier::external_body]
#[verifier::reject_recursive_types(K)]
#[verifier::reject_recursive_types(V)]
#[verifier::reject_recursive_types(S)]
pub struct ExDashMap<K, V, S>(DashMap<K, V, S>);

/// A cached value with its bookkeeping.
#[derive(Debug)]
pub struct CacheEntry {
    pub data: String,
    pub inserted_ms: u64,
    pub access_count: u64,
    pub last_accessed_ms: u64,
}

/// What an entry holds.
pub struct EntryView {
    pub data: Seq<char>,
    pub inserted_ms: u64,
    pub access_count: u64,
    pub last_accessed_ms: u64,
}

impl View for CacheEntry {
    type V = EntryView;

    open spec fn view(&self) -> EntryView {
        EntryView {
            data: self.data@,
            inserted_ms: self.inserted_ms,
            access_count: self.access_count,
            last_accessed_ms: self.last_accessed_ms,
        }
    }
}

/// What a `DashMap` of cache entries holds: each key with its entry.
pub uninterp spec fn cache_contents(m: DashMap<String, CacheEntry>) -> Map<Seq<char>, EntryView>;

/// The contents of an empty map.
pub open spec fn no_entries() -> Map<Seq<char>, EntryView> {
    Map::empty()
}

/// `DashMap::new`: an empty map.
#[verifier::external_body]
fn map_new() -> (res: DashMap<String, CacheEntry>)
    ensures
        cache_contents(res) == no_entries(),
{
    DashMap::new()
}

/// `DashMap::get`, the entry copied out: the entry of `key`, if any.
#[verifier::external_body]
fn map_get(m: &DashMap<String, CacheEntry>, key: &str) -> (res: Option<CacheEntry>)
    ensures
        match cache_contents(*m).get(key@) {
            Some(v) => res matches Some(e) && e@ == v,
            None => res is None,
        },
{
    m.get(key).map(|r| CacheEntry {
        data: r.data.clone(),
        inserted_ms: r.inserted_ms,
        access_count: r.access_count,
        last_accessed_ms: r.last_accessed_ms,
    })
}

/// `DashMap::insert`: `key` now holds `entry`, replacing what it held.
#[verifier::external_body]
fn map_insert(m: &mut DashMap<String, CacheEntry>, key: String, entry: CacheEntry)
    ensures
        cache_contents(*final(m)) == cache_contents(*old(m)).insert(key@, entry@),
{
    m.insert(key, entry);
}

/// `DashMap::remove`: takes `key` out, handing back its entry.
#[verifier::external_body]
fn map_remove(m: &mut DashMap<String, CacheEntry>, key: &str) -> (res: Option<CacheEntry>)
    ensures
        cache_contents(*final(m)) == cache_contents(*old(m)).remove(key@),
        match cache_contents(*old(m)).get(key@) {
            Some(v) => res matches Some(e) && e@ == v,
            None => res is None,
        },
{
    m.remove(key).map(|(_, e)| e)
}

/// `DashMap::len`: the number of keys.
#[verifier::external_body]
fn map_len(m: &DashMap<String, CacheEntry>) -> (res: usize)
    ensures
        res == cache_contents(*m).dom().len(),
{
    m.len()
}

/// `DashMap::clear`: no key left.
#[verifier::external_body]
fn map_clear(m: &mut DashMap<String, CacheEntry>)
    ensures
        cache_contents(*final(m)) == no_entries(),
{
    m.clear();
}

/// `DashMap::iter`, each entry mapped to its key and insertion time: every
/// key once, in the map's own order.
#[verifier::external_body]
fn map_entries(m: &DashMap<String, CacheEntry>) -> (res: Vec<(String, u64)>)
    ensures
        forall|i: int, j: int| 0 <= i < j < res@.len() ==> res@[i].0@ != res@[j].0@,
        forall|i: int| 0 <= i < res@.len() ==> cache_contents(*m).contains_key(#[trigger] res@[i].0@)
            && res@[i].1 == cache_contents(*m)[res@[i].0@].inserted_ms,
        forall|k: Seq<char>| cache_contents(*m).contains_key(k) ==> exists|i: int| 0 <= i < res@.len() && #[trigger] res@[i].0@ == k,
{
    m.iter().map(|r| (r.key().clone(), r.value().inserted_ms)).collect()
}

/// Counters of the cache. The hit rate is held in thousandths of the
/// requests.
#[derive(Debug, Clone, Copy, PartialEq, Eq, Structural)]
pub struct CacheStats {
    pub total_entries: u64,
    pub cache_hits: u64,
    pub cache_misses: u64,
    pub hit_rate_permille: u64,
    pub total_size_bytes: u64,
    pub evictions: u64,
    pub oldest_entry_age_seconds: u64,
}

/// Whether an entry put in at `inserted_ms` has outlived `ttl_seconds` at
/// `now_ms`.
pub open spec fn expired(inserted_ms: u64, now_ms: u64, ttl_seconds: u64) -> bool {
    now_ms > inserted_ms && now_ms - inserted_ms > ttl_seconds * 1000
}

fn is_expired(inserted_ms: u64, now_ms: u64, ttl_seconds: u64) -> (res: bool)
    ensures
        res == expired(inserted_ms, now_ms, ttl_seconds),
{
    now_ms > inserted_ms && (now_ms - inserted_ms) as u128 > ttl_seconds as u128 * 1000
}

/// Thousandths of the requests that hit, zero before any request.
pub open spec fn hit_rate(hits: u64, misses: u64) -> u64 {
    if hits + misses > 0 { ((hits as int) * 1000 / (hits + misses)) as u64 } else { 0 }
}

/// The shared result cache of the storage layer.
pub struct StorageCache {
    cache: DashMap<String, CacheEntry>,
    config: CacheConfig,
    stats: CacheStats,
}

impl StorageCache {
    pub closed spec fn contents(&self) -> Map<Seq<char>, EntryView> {
        cache_contents(self.cache)
    }

    pub closed spec fn spec_config(&self) -> CacheConfig {
        self.config
    }

    pub closed spec fn spec_stats(&self) -> CacheStats {
        self.stats
    }

    /// An empty cache with zeroed counters.
    pub fn new(config: CacheConfig) -> (res: Self)
        ensures
            res.contents() == Map::<Seq<char>, EntryView>::empty(),
            res.spec_config() == config,
            res.spec_stats() == (CacheStats {
                total_entries: 0,
                cache_hits: 0,
                cache_misses: 0,
                hit_rate_permille: 0,
                total_size_bytes: 0,
                evictions: 0,
                oldest_entry_age_seconds: 0,
            }),
    {
        StorageCache {
            cache: map_new(),
            config,
            stats: CacheStats {
                total_entries: 0,
                cache_hits: 0,
                cache_misses: 0,
                hit_rate_permille: 0,
                total_size_bytes: 0,
                evictions: 0,
                oldest_entry_age_seconds: 0,
            },
        }
    }

    /// The value of `key` at `now_ms`. A hit counts the access; an expired
    /// entry is dropped and, like a missing one, counts as a miss. A
    /// disabled cache holds nothing.
    pub fn get(&mut self, key: &str, now_ms: u64) -> (res: Option<String>)
        ensures
            final(self).spec_config() == old(self).spec_config(),
            !old(self).spec_config().enabled ==> res is None && *final(self) == *old(self),
            old(self).spec_config().enabled ==> match old(self).contents().get(key@) {
                Some(e) => if expired(e.inserted_ms, now_ms, old(self).spec_config().ttl_seconds) {
                    &&& res is None
                    &&& final(self).contents() == old(self).contents().remove(key@)
                    &&& final(self).spec_stats() == (CacheStats {
                            cache_misses: crate::net_metrics::bump(old(self).spec_stats().cache_misses, 1),
                            ..old(self).spec_stats()
                        })
                } else {
                    &&& res matches Some(d) && d@ == e.data
                    &&& final(self).contents() == old(self).contents().insert(key@, EntryView {
                            access_count: crate::net_metrics::bump(e.access_count, 1),
                            last_accessed_ms: now_ms,
                            ..e
                        })
                    &&& final(self).spec_stats() == (CacheStats {
                            cache_hits: crate::net_metrics::bump(old(self).spec_stats().cache_hits, 1),
                            ..old(self).spec_stats()
                        })
                },
                None => {
                    &&& res is None
                    &&& final(self).contents() == old(self).contents()
                    &&& final(self).spec_stats() == (CacheStats {
                            cache_misses: crate::net_metrics::bump(old(self).spec_stats().cache_misses, 1),
                            ..old(self).spec_stats()
                        })
                },
            },
    {
        if !self.config.enabled {
            return None;
        }
        match map_get(&self.cache, key) {
            Some(e) => {
                if is_expired(e.inserted_ms, now_ms, self.config.ttl_seconds) {
                    let _ = map_remove(&mut self.cache, key);
                    self.stats.cache_misses = self.stats.cache_misses.wrapping_add(1);
                    None
                } else {
                    let data = e.data.clone();
                    let updated = CacheEntry {
                        data: e.data,
                        inserted_ms: e.inserted_ms,
                        access_count: e.access_count.wrapping_add(1),
                        last_accessed_ms: now_ms,
                    };
                    map_insert(&mut self.cache, key.to_string(), updated);
                    self.stats.cache_hits = self.stats.cache_hits.wrapping_add(1);
                    Some(data)
                }
            },
            None => {
                self.stats.cache_misses = self.stats.cache_misses.wrapping_add(1);
                None
            },
        }
    }

    /// Whether `key` holds an entry put in no later than any other.
    pub open spec fn is_oldest(&self, key: Seq<char>) -> bool {
        &&& self.contents().contains_key(key)
        &&& forall|k: Seq<char>| self.contents().contains_key(k) ==> self.contents()[key].inserted_ms <= #[trigger] self.contents()[k].inserted_ms
    }

    /// Evicts the entry put in earliest, counting the eviction; nothing
    /// happens to an empty cache.
    fn evict_oldest(&mut self)
        ensures
            final(self).spec_config() == old(self).spec_config(),
            old(self).contents().dom().len() == 0 && old(self).contents().dom().finite() ==> *final(self) == *old(self),
            (exists|k: Seq<char>| old(self).contents().contains_key(k)) ==> exists|k: Seq<char>| {
                &&& #[trigger] old(self).is_oldest(k)
                &&& final(self).contents() == old(self).contents().remove(k)
                &&& final(self).spec_stats() == (CacheStats {
                        evictions: crate::net_metrics::bump(old(self).spec_stats().evictions, 1),
                        ..old(self).spec_stats()
                    })
            },
            !(exists|k: Seq<char>| old(self).contents().contains_key(k)) ==> *final(self) == *old(self),
    {
        let entries = map_entries(&self.cache);
        if entries.len() == 0 {
            proof {
                assert forall|k: Seq<char>| !old(self).contents().contains_key(k) by {
                    if old(self).contents().contains_key(k) {
                        let i = choose|i: int| 0 <= i < entries@.len() && #[trigger] entries@[i].0@ == k;
                    }
                }
                if old(self).contents().dom().len() == 0 && old(self).contents().dom().finite() {
                }
            }
            return;
        }
        let mut best: usize = 0;
        let mut i: usize = 1;
        while i < entries.len()
            invariant
                0 < entries@.len(),
                best < i <= entries@.len(),
                forall|j: int| 0 <= j < i ==> entries@[best as int].1 <= #[trigger] entries@[j].1,
            decreases entries@.len() - i,
        {
            if entries[i].1 < entries[best].1 {
                best = i;
            }
            i = i + 1;
        }
        let ghost key = entries@[best as int].0@;
        proof {
            assert forall|k: Seq<char>| old(self).contents().contains_key(k) implies
                old(self).contents()[key].inserted_ms <= #[trigger] old(self).contents()[k].inserted_ms by {
                let j = choose|j: int| 0 <= j < entries@.len() && #[trigger] entries@[j].0@ == k;
                assert(entries@[best as int].1 <= entries@[j].1);
            }
            assert(old(self).is_oldest(key));
        }
        let _ = map_remove(&mut self.cache, entries[best].0.as_str());
        self.stats.evictions = self.stats.evictions.wrapping_add(1);
    }

    /// Stores `value` under `key` at `now_ms` (read once), first evicting
    /// the oldest entry when the cache holds its maximum number of items;
    /// the entry count follows. A disabled cache stores nothing.
    pub fn put(&mut self, key: String, value: String, now_ms: u64) -> (res: Result<(), String>)
        ensures
            res is Ok,
            final(self).spec_config() == old(self).spec_config(),
            !old(self).spec_config().enabled ==> *final(self) == *old(self),
            old(self).spec_config().enabled ==> {
                let entry = EntryView { data: value@, inserted_ms: now_ms, access_count: 1, last_accessed_ms: now_ms };
                &&& old(self).contents().dom().len() < old(self).spec_config().max_items ==>
                    final(self).contents() == old(self).contents().insert(key@, entry)
                        && final(self).spec_stats().evictions == old(self).spec_stats().evictions
                &&& old(self).contents().dom().len() >= old(self).spec_config().max_items ==>
                    (exists|k: Seq<char>| #[trigger] old(self).is_oldest(k)
                        && final(self).contents() == old(self).contents().remove(k).insert(key@, entry)
                        && final(self).spec_stats().evictions == crate::net_metrics::bump(old(self).spec_stats().evictions, 1))
                    || (old(self).contents() == no_entries() && final(self).contents() == no_entries().insert(key@, entry))
                &&& final(self).spec_stats().total_entries == final(self).contents().dom().len()
                &&& final(self).spec_stats().cache_hits == old(self).spec_stats().cache_hits
                &&& final(self).spec_stats().cache_misses == old(self).spec_stats().cache_misses
            },
    {
        if !self.config.enabled {
            return Ok(());
        }
        let ghost before = self.contents();
        if map_len(&self.cache) >= self.config.max_items {
            self.evict_oldest();
            proof {
                if !(exists|k: Seq<char>| before.contains_key(k)) {
                    assert(before =~= no_entries());
                }
            }
        }
        let entry = CacheEntry { data: value, inserted_ms: now_ms, access_count: 1, last_accessed_ms: now_ms };
        map_insert(&mut self.cache, key, entry);
        let n = map_len(&self.cache);
        self.stats.total_entries = n as u64;
        Ok(())
    }

    /// Takes the entry of `key` out, handing back its value; the entry
    /// count follows.
    pub fn remove(&mut self, key: &str) -> (res: Option<String>)
        ensures
            final(self).spec_config() == old(self).spec_config(),
            final(self).contents() == old(self).contents().remove(key@),
            match old(self).contents().get(key@) {
                Some(e) => {
                    &&& res matches Some(d) && d@ == e.data
                    &&& final(self).spec_stats() == (CacheStats {
                            total_entries: final(self).contents().dom().len() as u64,
                            ..old(self).spec_stats()
                        })
                },
                None => res is None && final(self).spec_stats() == old(self).spec_stats(),
            },
    {
        match map_remove(&mut self.cache, key) {
            Some(e) => {
                let n = map_len(&self.cache);
                self.stats.total_entries = n as u64;
                Some(e.data)
            },
            None => None,
        }
    }

    /// Empties the cache; no entries, no size.
    pub fn clear(&mut self)
        ensures
            final(self).spec_config() == old(self).spec_config(),
            final(self).contents() == no_entries(),
            final(self).spec_stats() == (CacheStats {
                total_entries: 0,
                total_size_bytes: 0,
                ..old(self).spec_stats()
            }),
    {
        map_clear(&mut self.cache);
        self.stats.total_entries = 0;
        self.stats.total_size_bytes = 0;
    }

    /// Drops every entry that outlived its time to live at `now_ms`,
    /// counting them as evictions; how many were dropped.
    pub fn cleanup_expired(&mut self, now_ms: u64) -> (res: u64)
        ensures
            final(self).spec_config() == old(self).spec_config(),
            forall|k: Seq<char>| #[trigger] final(self).contents().contains_key(k) <==>
                (old(self).contents().contains_key(k)
                    && !expired(old(self).contents()[k].inserted_ms, now_ms, old(self).spec_config().ttl_seconds)),
            forall|k: Seq<char>| #[trigger] final(self).contents().contains_key(k) ==> final(self).contents()[k] == old(self).contents()[k],
            final(self).spec_stats() == (CacheStats {
                evictions: crate::net_metrics::bump(old(self).spec_stats().evictions, res),
                ..old(self).spec_stats()
            }),
    {
        let entries = map_entries(&self.cache);
        let ttl = self.config.ttl_seconds;
        let ghost start = self.contents();
        let mut removed: u64 = 0;
        let mut i: usize = 0;
        while i < entries.len()
            invariant
                i <= entries@.len(),
                ttl == self.config.ttl_seconds,
                self.config == old(self).config,
                self.stats == old(self).stats,
                start == old(self).contents(),
                forall|a: int, b: int| 0 <= a < b < entries@.len() ==> entries@[a].0@ != entries@[b].0@,
                forall|a: int| 0 <= a < entries@.len() ==> start.contains_key(#[trigger] entries@[a].0@)
                    && entries@[a].1 == start[entries@[a].0@].inserted_ms,
                forall|k: Seq<char>| start.contains_key(k) ==> exists|a: int| 0 <= a < entries@.len() && #[trigger] entries@[a].0@ == k,
                forall|k: Seq<char>| #[trigger] self.contents().contains_key(k) <==>
                    (start.contains_key(k) && !(expired(start[k].inserted_ms, now_ms, ttl)
                        && exists|a: int| 0 <= a < i && #[trigger] entries@[a].0@ == k)),
                forall|k: Seq<char>| #[trigger] self.contents().contains_key(k) ==> self.contents()[k] == start[k],
            decreases entries@.len() - i,
        {
            if is_expired(entries[i].1, now_ms, ttl) {
                let ghost before = self.contents();
                let r = map_remove(&mut self.cache, entries[i].0.as_str());
                if r.is_some() {
                    removed = removed.wrapping_add(1);
                }
                proof {
                    let ki = entries@[i as int].0@;
                    assert forall|k: Seq<char>| #[trigger] self.contents().contains_key(k) <==>
                        (start.contains_key(k) && !(expired(start[k].inserted_ms, now_ms, ttl)
                            && exists|a: int| 0 <= a < i + 1 && #[trigger] entries@[a].0@ == k)) by {
                        if k == ki {
                            assert(entries@[i as int].0@ == k);
                        } else {
                            if exists|a: int| 0 <= a < i + 1 && #[trigger] entries@[a].0@ == k {
                                let a = choose|a: int| 0 <= a < i + 1 && #[trigger] entries@[a].0@ == k;
                                assert(a < i);
                            }
                        }
                    }
                }
            } else {
                proof {
                    let ki = entries@[i as int].0@;
                    assert forall|k: Seq<char>| #[trigger] self.contents().contains_key(k) <==>
                        (start.contains_key(k) && !(expired(start[k].inserted_ms, now_ms, ttl)
                            && exists|a: int| 0 <= a < i + 1 && #[trigger] entries@[a].0@ == k)) by {
                        if exists|a: int| 0 <= a < i + 1 && #[trigger] entries@[a].0@ == k {
                            let a = choose|a: int| 0 <= a < i + 1 && #[trigger] entries@[a].0@ == k;
                            if a == i {
                                assert(k == ki);
                            }
                        }
                    }
                }
            }
            i = i + 1;
        }
        proof {
            assert forall|k: Seq<char>| #[trigger] self.contents().contains_key(k) <==>
                (start.contains_key(k) && !expired(start[k].inserted_ms, now_ms, ttl)) by {
                if start.contains_key(k) {
                    let a = choose|a: int| 0 <= a < entries@.len() && #[trigger] entries@[a].0@ == k;
                }
            }
        }
        let ghost fin = self.contents();
        self.stats.evictions = self.stats.evictions.wrapping_add(removed);
        assert(self.contents() == fin);
        removed
    }

    /// The counters now: the hit rate in thousandths of the requests, the
    /// age in seconds of the oldest entry, the entry count, and the size
    /// reckoned at a kilobyte per entry.
    pub fn get_stats(&self, now_ms: u64) -> (res: CacheStats)
        ensures
            res.cache_hits == self.spec_stats().cache_hits,
            res.cache_misses == self.spec_stats().cache_misses,
            res.evictions == self.spec_stats().evictions,
            res.hit_rate_permille == hit_rate(self.spec_stats().cache_hits, self.spec_stats().cache_misses),
            res.total_entries == self.contents().dom().len(),
            res.total_size_bytes == ((self.contents().dom().len() * 1024) % 0x1_0000_0000_0000_0000) as u64,
            forall|k: Seq<char>| self.contents().contains_key(k) ==>
                (if now_ms >= self.contents()[k].inserted_ms { (now_ms - self.contents()[k].inserted_ms) / 1000 } else { 0 })
                    <= res.oldest_entry_age_seconds,
            res.oldest_entry_age_seconds > 0 ==> exists|k: Seq<char>| self.contents().contains_key(k)
                && res.oldest_entry_age_seconds == (now_ms - self.contents()[k].inserted_ms) / 1000,
    {
        let total = self.stats.cache_hits as u128 + self.stats.cache_misses as u128;
        let hit_rate: u64 = if total > 0 {
            proof {
                assert((self.stats.cache_hits as int) * 1000 / (total as int) <= 1000) by (nonlinear_arith)
                    requires self.stats.cache_hits <= total, total > 0;
            }
            ((self.stats.cache_hits as u128 * 1000) / total) as u64
        } else {
            0
        };
        let entries = map_entries(&self.cache);
        let mut oldest: u64 = 0;
        let mut i: usize = 0;
        while i < entries.len()
            invariant
                i <= entries@.len(),
                forall|a: int| 0 <= a < entries@.len() ==> self.contents().contains_key(#[trigger] entries@[a].0@)
                    && entries@[a].1 == self.contents()[entries@[a].0@].inserted_ms,
                forall|a: int| 0 <= a < i ==>
                    (if now_ms >= (#[trigger] entries@[a]).1 { (now_ms - entries@[a].1) / 1000 } else { 0 }) <= oldest,
                oldest > 0 ==> exists|a: int| 0 <= a < i && now_ms >= (#[trigger] entries@[a]).1
                    && oldest == (now_ms - entries@[a].1) / 1000,
            decreases entries@.len() - i,
        {
            let age = if now_ms >= entries[i].1 { (now_ms - entries[i].1) / 1000 } else { 0 };
            if age > oldest {
                oldest = age;
            }
            i = i + 1;
        }
        proof {
            assert forall|k: Seq<char>| self.contents().contains_key(k) implies
                (if now_ms >= self.contents()[k].inserted_ms { (now_ms - self.contents()[k].inserted_ms) / 1000 } else { 0 })
                    <= oldest by {
                let a = choose|a: int| 0 <= a < entries@.len() && #[trigger] entries@[a].0@ == k;
                assert(entries@[a].1 == self.contents()[k].inserted_ms);
            }
            if oldest > 0 {
                let a = choose|a: int| 0 <= a < entries@.len() && now_ms >= (#[trigger] entries@[a]).1
                    && oldest == (now_ms - entries@[a].1) / 1000;
                assert(self.contents().contains_key(entries@[a].0@));
            }
        }
        let n = map_len(&self.cache);
        CacheStats {
            total_entries: n as u64,
            cache_hits: self.stats.cache_hits,
            cache_misses: self.stats.cache_misses,
            hit_rate_permille: hit_rate,
            total_size_bytes: (n as u64).wrapping_mul(1024),
            evictions: self.stats.evictions,
            oldest_entry_age_seconds: oldest,
        }
    }
}

} // verus!
