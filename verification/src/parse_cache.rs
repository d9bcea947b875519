//! The parser's result cache: parse results keyed by text in a `DashMap`,
//! each living for its time to live; when the cache is full, the least
//! used entry, the oldest among equally used ones, makes room. Times are
//! milliseconds of the caller's clock.

use vstd::prelude::*;
use dashmap::DashMap;
use std::time::Duration;
use crate::clock::{duration_as_millis, duration_from_secs, millis_of, secs_duration};
use crate::program_types::{ParseResult, ParseResultView};

verus! {

/// A cached parse result with when it was made, how long it lives and how
/// often it was read.
#[derive(Debug)]
pub struct ParseEntry {
    pub result: ParseResult,
    pub created_ms: u64,
    pub ttl_ms: u64,
    pub access_count: u64,
}

/// What an entry holds.
pub struct ParseEntryView {
    pub result: ParseResultView,
    pub created_ms: u64,
    pub ttl_ms: u64,
    pub access_count: u64,
}

impl View for ParseEntry {
    type V = ParseEntryView;

    open spec fn view(&self) -> ParseEntryView {
        ParseEntryView {
            result: self.result@,
            created_ms: self.created_ms,
            ttl_ms: self.ttl_ms,
            access_count: self.access_count,
        }
    }
}

impl Clone for ParseEntry {
    fn clone(&self) -> (res: Self)
        ensures
            res@ == self@,
    {
        ParseEntry {
            result: self.result.clone(),
            created_ms: self.created_ms,
            ttl_ms: self.ttl_ms,
            access_count: self.access_count,
        }
    }
}

/// What a `DashMap` of parse entries holds: each key with its entry.
pub uninterp spec fn parse_contents(m: DashMap<String, ParseEntry>) -> Map<Seq<char>, ParseEntryView>;

/// The contents of an empty map.
pub open spec fn no_parse_entries() -> Map<Seq<char>, ParseEntryView> {
    Map::empty()
}

/// `DashMap::new`: an empty map.
#[verifier::external_body]
fn pmap_new() -> (res: DashMap<String, ParseEntry>)
    ensures
        parse_contents(res) == no_parse_entries(),
{
    DashMap::new()
}

/// `DashMap::get`, the entry copied out with its verified `clone`: the
/// entry of `key`, if any.
#[verifier::external_body]
fn pmap_get(m: &DashMap<String, ParseEntry>, key: &str) -> (res: Option<ParseEntry>)
    ensures
        match parse_contents(*m).get(key@) {
            Some(v) => res matches Some(e) && e@ == v,
            None => res is None,
        },
{
    m.get(key).map(|r| r.value().clone())
}

/// `DashMap::insert`: `key` now holds `entry`, replacing what it held.
#[verifier::external_body]
fn pmap_insert(m: &mut DashMap<String, ParseEntry>, key: String, entry: ParseEntry)
    ensures
        parse_contents(*final(m)) == parse_contents(*old(m)).insert(key@, entry@),
{
    m.insert(key, entry);
}

/// `DashMap::remove`: takes `key` out.
#[verifier::external_body]
fn pmap_remove(m: &mut DashMap<String, ParseEntry>, key: &str)
    ensures
        parse_contents(*final(m)) == parse_contents(*old(m)).remove(key@),
{
    m.remove(key);
}

/// `DashMap::len`: the number of keys.
#[verifier::external_body]
fn pmap_len(m: &DashMap<String, ParseEntry>) -> (res: usize)
    ensures
        res == parse_contents(*m).dom().len(),
{
    m.len()
}

/// `DashMap::clear`: no key left.
#[verifier::external_body]
fn pmap_clear(m: &mut DashMap<String, ParseEntry>)
    ensures
        parse_contents(*final(m)) == no_parse_entries(),
{
    m.clear();
}

/// `DashMap::iter`, each entry mapped to its key, creation time, time to
/// live and read count: every key once, in the map's own order.
#[verifier::external_body]
fn pmap_entries(m: &DashMap<String, ParseEntry>) -> (res: Vec<(String, u64, u64, u64)>)
    ensures
        forall|i: int, j: int| 0 <= i < j < res@.len() ==> res@[i].0@ != res@[j].0@,
        forall|i: int| 0 <= i < res@.len() ==> parse_contents(*m).contains_key(#[trigger] res@[i].0@)
            && res@[i].1 == parse_contents(*m)[res@[i].0@].created_ms
            && res@[i].2 == parse_contents(*m)[res@[i].0@].ttl_ms
            && res@[i].3 == parse_contents(*m)[res@[i].0@].access_count,
        forall|k: Seq<char>| parse_contents(*m).contains_key(k) ==> exists|i: int| 0 <= i < res@.len() && #[trigger] res@[i].0@ == k,
{
    m.iter().map(|r| (r.key().clone(), r.value().created_ms, r.value().ttl_ms, r.value().access_count)).collect()
}

/// `std::mem::size_of::<ParseEntry>()`. The layout is the compiler's, so
/// nothing is stated of it.
#[verifier::external_body]
fn entry_layout_size() -> (res: usize) {
    std::mem::size_of::<ParseEntry>()
}

/// Whether an entry still lives at `now_ms`: less than its time to live
/// has passed since it was made (no time, where the clock reads earlier).
pub open spec fn live(e: ParseEntryView, now_ms: u64) -> bool {
    (if now_ms >= e.created_ms { now_ms - e.created_ms } else { 0 }) < e.ttl_ms
}

fn is_live(created_ms: u64, ttl_ms: u64, now_ms: u64) -> (res: bool)
    ensures
        res == ((if now_ms >= created_ms { now_ms - created_ms } else { 0 }) < ttl_ms),
{
    now_ms.saturating_sub(created_ms) < ttl_ms
}

/// Whether an entry read `count` times and made at `created_ms` comes
/// before the mark `(lowest, oldest)`: fewer reads, or as many and older.
pub open spec fn before_mark(count: u64, created_ms: u64, lowest: u64, oldest: u64) -> bool {
    count < lowest || (count == lowest && created_ms < oldest)
}

/// `k` is the entry that makes room at `now_ms`: it comes before the
/// starting mark (no reads counted, the present time) and no entry comes
/// before it.
pub open spec fn lru_victim(c: Map<Seq<char>, ParseEntryView>, now_ms: u64, k: Seq<char>) -> bool {
    &&& c.contains_key(k)
    &&& before_mark(c[k].access_count, c[k].created_ms, u64::MAX, now_ms)
    &&& forall|j: Seq<char>| #[trigger] c.contains_key(j) ==> !before_mark(c[j].access_count, c[j].created_ms,
        c[k].access_count, c[k].created_ms)
}

/// What is left once room is made at `now_ms`: the contents without a
/// victim, or unchanged where no entry comes before the starting mark.
pub open spec fn after_eviction(c: Map<Seq<char>, ParseEntryView>, now_ms: u64, rest: Map<Seq<char>, ParseEntryView>) -> bool {
    ||| (forall|j: Seq<char>| #[trigger] c.contains_key(j) ==> !before_mark(c[j].access_count, c[j].created_ms, u64::MAX, now_ms))
        && rest == c
    ||| exists|k: Seq<char>| lru_victim(c, now_ms, k) && rest == c.remove(k)
}

/// `ks` lists each key of the contents once.
pub open spec fn listing(c: Map<Seq<char>, ParseEntryView>, ks: Seq<Seq<char>>) -> bool {
    &&& ks.no_duplicates()
    &&& forall|i: int| 0 <= i < ks.len() ==> c.contains_key(#[trigger] ks[i])
    &&& forall|k: Seq<char>| #[trigger] c.contains_key(k) ==> ks.contains(k)
}

/// The reads of the listed entries, summed.
pub open spec fn reads_of(c: Map<Seq<char>, ParseEntryView>, ks: Seq<Seq<char>>) -> int
    decreases ks.len(),
{
    if ks.len() == 0 { 0 } else { reads_of(c, ks.drop_last()) + c[ks.last()].access_count }
}

/// The listed entries that no longer live at `now_ms`, counted.
pub open spec fn dead_of(c: Map<Seq<char>, ParseEntryView>, ks: Seq<Seq<char>>, now_ms: u64) -> int
    decreases ks.len(),
{
    if ks.len() == 0 { 0 } else { dead_of(c, ks.drop_last(), now_ms) + if live(c[ks.last()], now_ms) { 0int } else { 1int } }
}

/// Whole mebibytes taken by `entries` entries of `size` bytes each, the
/// product saturating at the largest `usize`.
pub open spec fn memory_mb(entries: usize, size: usize) -> int {
    (if entries * size <= usize::MAX { entries * size } else { usize::MAX as int }) / 1048576
}

/// Counters of the parse cache. The read rate is reads per entry in
/// thousandths.
#[derive(Debug, Clone, Copy, PartialEq, Eq, Structural)]
pub struct CacheStats {
    pub total_entries: usize,
    pub expired_entries: usize,
    pub hit_rate_permille: u128,
    pub memory_usage_mb: usize,
}

/// The parser's result cache.
pub struct ParseCache {
    cache: DashMap<String, ParseEntry>,
    max_size: usize,
    default_ttl: Duration,
}

impl ParseCache {
    pub closed spec fn contents(&self) -> Map<Seq<char>, ParseEntryView> {
        parse_contents(self.cache)
    }

    pub closed spec fn spec_max_size(&self) -> usize {
        self.max_size
    }

    pub closed spec fn spec_default_ttl(&self) -> Duration {
        self.default_ttl
    }

    /// An empty cache of the given capacity whose entries live five
    /// minutes unless told otherwise.
    pub fn new(max_size: usize) -> (res: Self)
        ensures
            res.contents() == Map::<Seq<char>, ParseEntryView>::empty(),
            res.spec_max_size() == max_size,
            res.spec_default_ttl() == secs_duration(300),
    {
        ParseCache { cache: pmap_new(), max_size, default_ttl: duration_from_secs(300) }
    }

    /// The result under `key` if its entry still lives, counting the read;
    /// an entry that no longer lives is dropped.
    pub fn get(&mut self, key: &str, now_ms: u64) -> (res: Option<ParseResult>)
        ensures
            final(self).spec_max_size() == old(self).spec_max_size(),
            final(self).spec_default_ttl() == old(self).spec_default_ttl(),
            match old(self).contents().get(key@) {
                None => res is None && final(self).contents() == old(self).contents(),
                Some(e) => if live(e, now_ms) {
                    &&& res matches Some(r) && r@ == e.result
                    &&& final(self).contents() == old(self).contents().insert(key@,
                        ParseEntryView { access_count: e.access_count.wrapping_add(1), ..e })
                } else {
                    res is None && final(self).contents() == old(self).contents().remove(key@)
                },
            },
    {
        match pmap_get(&self.cache, key) {
            None => None,
            Some(entry) => {
                if is_live(entry.created_ms, entry.ttl_ms, now_ms) {
                    let out = entry.result.clone();
                    let updated = ParseEntry {
                        result: entry.result,
                        created_ms: entry.created_ms,
                        ttl_ms: entry.ttl_ms,
                        access_count: entry.access_count.wrapping_add(1),
                    };
                    pmap_insert(&mut self.cache, key.to_owned(), updated);
                    Some(out)
                } else {
                    pmap_remove(&mut self.cache, key);
                    None
                }
            },
        }
    }

    /// Caches the result under `key` for the default time to live.
    pub fn insert(&mut self, key: String, result: ParseResult, now_ms: u64)
        ensures
            final(self).spec_max_size() == old(self).spec_max_size(),
            final(self).spec_default_ttl() == old(self).spec_default_ttl(),
            exists|rest: Map<Seq<char>, ParseEntryView>, t: u64| {
                &&& (if old(self).contents().dom().len() >= old(self).spec_max_size() {
                    after_eviction(old(self).contents(), now_ms, rest)
                } else {
                    rest == old(self).contents()
                })
                &&& millis_of(old(self).spec_default_ttl(), t)
                &&& final(self).contents() == rest.insert(key@,
                    ParseEntryView { result: result@, created_ms: now_ms, ttl_ms: t, access_count: 0 })
            },
    {
        let ttl = self.default_ttl;
        self.insert_with_ttl(key, result, ttl, now_ms);
    }

    /// Caches the result under `key` for `ttl`, replacing what the key held;
    /// when the cache is full, the entry chosen by `evict_lru` goes first.
    pub fn insert_with_ttl(&mut self, key: String, result: ParseResult, ttl: Duration, now_ms: u64)
        ensures
            final(self).spec_max_size() == old(self).spec_max_size(),
            final(self).spec_default_ttl() == old(self).spec_default_ttl(),
            exists|rest: Map<Seq<char>, ParseEntryView>, t: u64| {
                &&& (if old(self).contents().dom().len() >= old(self).spec_max_size() {
                    after_eviction(old(self).contents(), now_ms, rest)
                } else {
                    rest == old(self).contents()
                })
                &&& millis_of(ttl, t)
                &&& final(self).contents() == rest.insert(key@,
                    ParseEntryView { result: result@, created_ms: now_ms, ttl_ms: t, access_count: 0 })
            },
    {
        let ghost before = self.contents();
        if pmap_len(&self.cache) >= self.max_size {
            self.evict_lru(now_ms);
        }
        let ghost rest = self.contents();
        let t = duration_as_millis(&ttl);
        let entry = ParseEntry { result, created_ms: now_ms, ttl_ms: t, access_count: 0 };
        pmap_insert(&mut self.cache, key, entry);
    }

    /// Drops every entry.
    pub fn clear(&mut self)
        ensures
            final(self).spec_max_size() == old(self).spec_max_size(),
            final(self).spec_default_ttl() == old(self).spec_default_ttl(),
            final(self).contents() == Map::<Seq<char>, ParseEntryView>::empty(),
    {
        pmap_clear(&mut self.cache);
    }

    /// The number of entries, living or not.
    pub fn size(&self) -> (res: usize)
        ensures
            res == self.contents().dom().len(),
    {
        pmap_len(&self.cache)
    }

    /// The number of entries, those that no longer live at `now_ms`, the
    /// reads per entry in thousandths (zero without reads), and the
    /// entries' memory in whole mebibytes.
    pub fn stats(&self, now_ms: u64) -> (res: CacheStats)
        ensures
            res.total_entries == self.contents().dom().len(),
            exists|ks: Seq<Seq<char>>| {
                &&& listing(self.contents(), ks)
                &&& res.expired_entries == dead_of(self.contents(), ks, now_ms)
                &&& res.hit_rate_permille == if reads_of(self.contents(), ks) > 0 {
                    reads_of(self.contents(), ks) * 1000 / (self.contents().dom().len() as int)
                } else {
                    0
                }
            },
            exists|sz: usize| res.memory_usage_mb == #[trigger] memory_mb(res.total_entries, sz),
    {
        let total = pmap_len(&self.cache);
        let es = pmap_entries(&self.cache);
        let ghost c = self.contents();
        let ghost ks = Seq::new(es@.len(), |i: int| es@[i].0@);
        let mut expired: usize = 0;
        let mut reads: u128 = 0;
        let mut i: usize = 0;
        while i < es.len()
            invariant
                i <= es@.len(),
                ks.len() == es@.len(),
                forall|a: int| 0 <= a < es@.len() ==> #[trigger] ks[a] == es@[a].0@,
                forall|a: int| 0 <= a < es@.len() ==> c.contains_key(#[trigger] es@[a].0@)
                    && es@[a].1 == c[es@[a].0@].created_ms
                    && es@[a].2 == c[es@[a].0@].ttl_ms
                    && es@[a].3 == c[es@[a].0@].access_count,
                expired == dead_of(c, ks.subrange(0, i as int), now_ms),
                expired <= i,
                reads == reads_of(c, ks.subrange(0, i as int)),
                reads <= i * 0xFFFF_FFFF_FFFF_FFFFu128,
            decreases es@.len() - i,
        {
            let e = &es[i];
            proof {
                assert(ks.subrange(0, i + 1).drop_last() =~= ks.subrange(0, i as int));
                assert(ks.subrange(0, i + 1).last() == ks[i as int]);
            }
            if !is_live(e.1, e.2, now_ms) {
                expired = expired + 1;
            }
            reads = reads + e.3 as u128;
            i = i + 1;
        }
        proof {
            assert(ks.subrange(0, es@.len() as int) =~= ks);
            assert(ks.no_duplicates()) by {
                assert forall|a: int, b: int| 0 <= a < ks.len() && 0 <= b < ks.len() && a != b implies ks[a] != ks[b] by {
                    if a < b {
                        assert(es@[a].0@ != es@[b].0@);
                    } else {
                        assert(es@[b].0@ != es@[a].0@);
                    }
                }
            }
            assert forall|k: Seq<char>| #[trigger] c.contains_key(k) implies ks.contains(k) by {
                let a = choose|a: int| 0 <= a < es@.len() && #[trigger] es@[a].0@ == k;
                assert(ks[a] == k);
            }
            assert(listing(c, ks));
            lemma_listing_len(c, ks);
        }
        let rate: u128 = if reads > 0 {
            let n = total as u128;
            let q = reads / n;
            let r = reads % n;
            proof {
                vstd::arithmetic::div_mod::lemma_fundamental_div_mod(reads as int, n as int);
                assert(q <= 0xFFFF_FFFF_FFFF_FFFFu128) by (nonlinear_arith)
                    requires
                        reads <= n * 0xFFFF_FFFF_FFFF_FFFFu128,
                        n > 0,
                        q == reads / n,
                ;
                assert(r < n);
                let r1000 = (r * 1000) as int;
                vstd::arithmetic::div_mod::lemma_fundamental_div_mod(r1000, n as int);
                let q2 = r1000 / (n as int);
                let r2 = r1000 % (n as int);
                assert((reads as int) * 1000 == (q as int * 1000 + q2) * (n as int) + r2) by (nonlinear_arith)
                    requires
                        reads as int == (n as int) * (q as int) + (r as int),
                        r1000 == (n as int) * q2 + r2,
                        r1000 == (r as int) * 1000,
                ;
                vstd::arithmetic::div_mod::lemma_fundamental_div_mod_converse((reads as int) * 1000, n as int,
                    q as int * 1000 + q2, r2);
                assert(r * 1000 < n * 1000) by (nonlinear_arith)
                    requires
                        r < n,
                ;
            }
            q * 1000 + (r * 1000) / n
        } else {
            0
        };
        let sz = entry_layout_size();
        let bytes: usize = match total.checked_mul(sz) {
            Some(b) => b,
            None => usize::MAX,
        };
        assert(bytes / 1048576 == memory_mb(total, sz));
        let res = CacheStats {
            total_entries: total,
            expired_entries: expired,
            hit_rate_permille: rate,
            memory_usage_mb: bytes / 1048576,
        };
        assert(res.memory_usage_mb == memory_mb(res.total_entries, sz));
        res
    }

    /// Makes room at `now_ms`: drops the entry read least often, the oldest
    /// among those read as often, if one comes before the starting mark.
    fn evict_lru(&mut self, now_ms: u64)
        ensures
            final(self).spec_max_size() == old(self).spec_max_size(),
            final(self).spec_default_ttl() == old(self).spec_default_ttl(),
            after_eviction(old(self).contents(), now_ms, final(self).contents()),
    {
        let es = pmap_entries(&self.cache);
        let ghost c = self.contents();
        let mut best: Option<usize> = None;
        let mut lowest: u64 = u64::MAX;
        let mut oldest: u64 = now_ms;
        let mut i: usize = 0;
        while i < es.len()
            invariant
                i <= es@.len(),
                forall|a: int| 0 <= a < es@.len() ==> c.contains_key(#[trigger] es@[a].0@)
                    && es@[a].1 == c[es@[a].0@].created_ms
                    && es@[a].3 == c[es@[a].0@].access_count,
                match best {
                    None => lowest == u64::MAX && oldest == now_ms,
                    Some(b) => b < i && lowest == es@[b as int].3 && oldest == es@[b as int].1
                        && before_mark(lowest, oldest, u64::MAX, now_ms),
                },
                forall|a: int| 0 <= a < i ==> !before_mark(#[trigger] es@[a].3, es@[a].1, lowest, oldest),
            decreases es@.len() - i,
        {
            if es[i].3 < lowest || (es[i].3 == lowest && es[i].1 < oldest) {
                best = Some(i);
                lowest = es[i].3;
                oldest = es[i].1;
            }
            i = i + 1;
        }
        match best {
            None => {
                proof {
                    assert forall|j: Seq<char>| #[trigger] c.contains_key(j) implies
                        !before_mark(c[j].access_count, c[j].created_ms, u64::MAX, now_ms) by {
                        let a = choose|a: int| 0 <= a < es@.len() && #[trigger] es@[a].0@ == j;
                        assert(!before_mark(es@[a].3, es@[a].1, lowest, oldest));
                    }
                }
            },
            Some(b) => {
                let ghost k = es@[b as int].0@;
                pmap_remove(&mut self.cache, es[b].0.as_str());
                proof {
                    assert forall|j: Seq<char>| #[trigger] c.contains_key(j) implies
                        !before_mark(c[j].access_count, c[j].created_ms, c[k].access_count, c[k].created_ms) by {
                        let a = choose|a: int| 0 <= a < es@.len() && #[trigger] es@[a].0@ == j;
                        assert(!before_mark(es@[a].3, es@[a].1, lowest, oldest));
                    }
                    assert(lru_victim(c, now_ms, k));
                }
            },
        }
    }
}

/// A listing has as many keys as the contents.
proof fn lemma_listing_len(c: Map<Seq<char>, ParseEntryView>, ks: Seq<Seq<char>>)
    requires
        listing(c, ks),
    ensures
        c.dom().len() == ks.len(),
{
    assert(c.dom() =~= ks.to_set());
    ks.unique_seq_to_set();
}

} // verus!
