//! Search results kept for a while so that a later menu selection can find them.
use vstd::prelude::*;
use crate::clock::MonotonicClock;
use crate::music_queue::SongItem;

verus! {

/// How long stored results stay readable: ten minutes, in nanoseconds.
pub const SEARCH_CACHE_TTL_NANOS: u64 = 600_000_000_000;

struct CacheEntry {
    key: String,
    value: Vec<SongItem>,
    created_at: u64,
}

/// Stored results and their storage time (clock nanoseconds).
pub type CacheRecord = (Seq<SongItem>, u64);

spec fn record_of(e: CacheEntry) -> CacheRecord {
    (e.value@, e.created_at)
}

/// The map that a list of entries denotes; a later entry for a key wins.
spec fn entries_map(s: Seq<CacheEntry>) -> Map<Seq<char>, CacheRecord>
    decreases s.len(),
{
    if s.len() == 0 {
        Map::empty()
    } else {
        entries_map(s.drop_last()).insert(s.last().key@, record_of(s.last()))
    }
}

spec fn unique_keys(s: Seq<CacheEntry>) -> bool {
    forall|i: int, j: int| 0 <= i < j < s.len() ==> s[i].key@ != s[j].key@
}

/// `now - created`, or zero when the clock reads earlier than `created`.
pub open spec fn age(now: u64, created: u64) -> u64 {
    if now >= created {
        (now - created) as u64
    } else {
        0
    }
}

/// Results stored under `key` that are no older than `ttl` at `now`.
pub open spec fn lookup_at(
    m: Map<Seq<char>, CacheRecord>,
    ttl: u64,
    key: Seq<char>,
    now: u64,
) -> Option<Seq<SongItem>> {
    if m.contains_key(key) && age(now, m[key].1) <= ttl {
        Some(m[key].0)
    } else {
        None
    }
}

/// The entries of `m` that are no older than `ttl` at `now`.
pub open spec fn fresh_entries(m: Map<Seq<char>, CacheRecord>, ttl: u64, now: u64) -> Map<
    Seq<char>,
    CacheRecord,
> {
    m.restrict(Set::new(|k: Seq<char>| m.contains_key(k) && age(now, m[k].1) <= ttl))
}

proof fn lemma_entries_map_update(s: Seq<CacheEntry>, i: int, e: CacheEntry)
    requires
        unique_keys(s),
        0 <= i < s.len(),
        e.key@ == s[i].key@,
    ensures
        entries_map(s.update(i, e)) == entries_map(s).insert(e.key@, record_of(e)),
    decreases s.len(),
{
    let t = s.update(i, e);
    if i == s.len() - 1 {
        assert(t.drop_last() =~= s.drop_last());
        assert(entries_map(t) =~= entries_map(s).insert(e.key@, record_of(e)));
    } else {
        assert(t.drop_last() =~= s.drop_last().update(i, e));
        lemma_entries_map_update(s.drop_last(), i, e);
        assert(s.last().key@ != e.key@);
        assert(entries_map(t) =~= entries_map(s).insert(e.key@, record_of(e)));
    }
}

proof fn lemma_entries_map_lookup(s: Seq<CacheEntry>, k: Seq<char>)
    requires
        unique_keys(s),
    ensures
        (exists|i: int| 0 <= i < s.len() && s[i].key@ == k) <==> entries_map(s).contains_key(k),
        forall|i: int|
            0 <= i < s.len() && s[i].key@ == k ==> entries_map(s)[k] == record_of(#[trigger] s[i]),
    decreases s.len(),
{
    if s.len() > 0 {
        let p = s.drop_last();
        lemma_entries_map_lookup(p, k);
        if exists|i: int| 0 <= i < s.len() && s[i].key@ == k {
            let i = choose|i: int| 0 <= i < s.len() && s[i].key@ == k;
            if i < s.len() - 1 {
                assert(p[i].key@ == k);
            }
        }
        if entries_map(s).contains_key(k) && k != s.last().key@ {
            let i = choose|i: int| 0 <= i < p.len() && p[i].key@ == k;
            assert(s[i].key@ == k);
        }
        assert forall|i: int| 0 <= i < s.len() && s[i].key@ == k implies entries_map(s)[k]
            == record_of(#[trigger] s[i]) by {
            if i < s.len() - 1 {
                assert(p[i] == s[i]);
            }
        }
    }
}

/// Searches by key, each stored with the time it was made; an entry is readable
/// for ten minutes.
pub struct SearchCache {
    entries: Vec<CacheEntry>,
    ttl: u64,
    clock: MonotonicClock,
}

impl View for SearchCache {
    type V = Map<Seq<char>, CacheRecord>;

    closed spec fn view(&self) -> Map<Seq<char>, CacheRecord> {
        entries_map(self.entries@)
    }
}

impl SearchCache {
    /// Keys are stored once each, and entries stay readable for ten minutes.
    pub closed spec fn wf(&self) -> bool {
        &&& unique_keys(self.entries@)
        &&& self.ttl == SEARCH_CACHE_TTL_NANOS
    }

    /// A well-formed cache keeps its entries readable for ten minutes.
    pub proof fn ttl_is_ten_minutes(&self)
        requires
            self.wf(),
        ensures
            self.ttl_spec() == SEARCH_CACHE_TTL_NANOS,
    {
    }

    /// How long entries stay readable, in nanoseconds.
    pub closed spec fn ttl_spec(&self) -> u64 {
        self.ttl
    }

    /// An empty cache whose entries stay readable for ten minutes.
    pub fn new() -> (c: Self)
        ensures
            c.wf(),
            c@ == Map::<Seq<char>, CacheRecord>::empty(),
            c.ttl_spec() == SEARCH_CACHE_TTL_NANOS,
    {
        let c = SearchCache { entries: Vec::new(), ttl: SEARCH_CACHE_TTL_NANOS, clock: MonotonicClock::new() };
        assert(c@ =~= Map::<Seq<char>, CacheRecord>::empty());
        c
    }

    /// An empty cache whose entries stay readable for ten minutes.
    pub fn constructor() -> (c: Self)
        ensures
            c.wf(),
            c@ == Map::<Seq<char>, CacheRecord>::empty(),
            c.ttl_spec() == SEARCH_CACHE_TTL_NANOS,
    {
        Self::new()
    }

    fn position(&self, key: &str) -> (r: Option<usize>)
        requires
            self.wf(),
        ensures
            match r {
                Some(i) => i < self.entries@.len() && self.entries@[i as int].key@ == key@,
                None => forall|i: int|
                    0 <= i < self.entries@.len() ==> self.entries@[i].key@ != key@,
            },
    {
        let mut i: usize = 0;
        while i < self.entries.len()
            invariant
                i <= self.entries@.len(),
                forall|j: int| 0 <= j < i ==> self.entries@[j].key@ != key@,
            decreases self.entries.len() - i,
        {
            if crate::text::str_eq(self.entries[i].key.as_str(), key) {
                return Some(i);
            }
            i = i + 1;
        }
        None
    }

    /// Stores `results` under `key` at time `now`, replacing what the key held.
    pub fn store_results_at(&mut self, key: String, results: Vec<SongItem>, now: u64)
        requires
            old(self).wf(),
        ensures
            final(self).wf(),
            final(self)@ == old(self)@.insert(key@, (results@, now)),
            final(self).ttl_spec() == old(self).ttl_spec(),
    {
        let e = CacheEntry { key, value: results, created_at: now };
        match self.position(e.key.as_str()) {
            Some(i) => {
                proof {
                    lemma_entries_map_update(self.entries@, i as int, e);
                }
                let ghost before = self.entries@;
                self.entries.set(i, e);
                assert forall|a: int, b: int| 0 <= a < b < self.entries@.len() implies self.entries@[a].key@
                    != self.entries@[b].key@ by {
                    if a != i && b != i {
                        assert(before[a] == self.entries@[a]);
                        assert(before[b] == self.entries@[b]);
                    } else if a == i {
                        assert(before[b] == self.entries@[b]);
                    } else {
                        assert(before[a] == self.entries@[a]);
                    }
                }
            },
            None => {
                let ghost before = self.entries@;
                self.entries.push(e);
                assert(self.entries@.drop_last() =~= before);
            },
        }
    }

    /// Stores `results` under `key`, stamped with the current time.
    pub fn store_results(&mut self, key: String, results: Vec<SongItem>)
        requires
            old(self).wf(),
        ensures
            final(self).wf(),
            exists|now: u64| final(self)@ == old(self)@.insert(key@, (results@, now)),
            final(self).ttl_spec() == old(self).ttl_spec(),
    {
        let now = self.clock.now_nanos();
        self.store_results_at(key, results, now);
    }

    /// The results stored under `key` if they are still fresh at `now`.
    pub fn get_at(&self, key: &str, now: u64) -> (r: Option<Vec<SongItem>>)
        requires
            self.wf(),
        ensures
            match lookup_at(self@, self.ttl_spec(), key@, now) {
                Some(v) => r matches Some(x) && x@ == v,
                None => r is None,
            },
    {
        proof {
            lemma_entries_map_lookup(self.entries@, key@);
        }
        match self.position(key) {
            Some(i) => {
                let e = &self.entries[i];
                let elapsed = now.saturating_sub(e.created_at);
                if elapsed <= self.ttl {
                    let v = e.value.clone();
                    assert(v@ =~= e.value@);
                    Some(v)
                } else {
                    None
                }
            },
            None => None,
        }
    }

    /// The results stored under `key` if they are still fresh now.
    pub fn get(&self, key: &str) -> (r: Option<Vec<SongItem>>)
        requires
            self.wf(),
        ensures
            exists|now: u64|
                match #[trigger] lookup_at(self@, self.ttl_spec(), key@, now) {
                    Some(v) => r matches Some(x) && x@ == v,
                    None => r is None,
                },
            !self@.contains_key(key@) ==> r is None,
            r matches Some(x) ==> x@ == self@[key@].0,
    {
        let now = self.clock.now_nanos();
        self.get_at(key, now)
    }

    /// Fresh results are stored under `key` at `now`.
    pub fn has_at(&self, key: &str, now: u64) -> (r: bool)
        requires
            self.wf(),
        ensures
            r == lookup_at(self@, self.ttl_spec(), key@, now) is Some,
    {
        self.get_at(key, now).is_some()
    }

    /// Fresh results are stored under `key` now.
    pub fn has(&self, key: &str) -> (r: bool)
        requires
            self.wf(),
        ensures
            exists|now: u64| r == (#[trigger] lookup_at(self@, self.ttl_spec(), key@, now)) is Some,
            r ==> self@.contains_key(key@),
    {
        self.get(key).is_some()
    }

    /// Drops every entry older than the time to live at `now`.
    pub fn cleanup_at(&mut self, now: u64)
        requires
            old(self).wf(),
        ensures
            final(self).wf(),
            final(self)@ == fresh_entries(old(self)@, old(self).ttl_spec(), now),
            final(self).ttl_spec() == old(self).ttl_spec(),
    {
        let ghost s = self.entries@;
        let ghost ttl = self.ttl;
        let mut kept: Vec<CacheEntry> = Vec::new();
        let mut rest: Vec<CacheEntry> = Vec::new();
        std::mem::swap(&mut rest, &mut self.entries);
        assert(rest@ == s);
        assert(s.take(0) =~= Seq::<CacheEntry>::empty());
        assert(entries_map(kept@) =~= fresh_entries(entries_map(s.take(0)), ttl, now));
        assert(s.skip(0) =~= s);
        while rest.len() > 0
            invariant
                ttl == self.ttl,
                unique_keys(s),
                rest@.len() <= s.len(),
                rest@ == s.skip(s.len() - rest@.len()),
                unique_keys(kept@),
                forall|j: int| 0 <= j < kept@.len() ==> exists|i: int| 0 <= i < s.len() - rest@.len()
                    && s[i].key@ == #[trigger] kept@[j].key@,
                entries_map(kept@) == fresh_entries(
                    entries_map(s.take(s.len() - rest@.len())),
                    ttl,
                    now,
                ),
            decreases rest.len(),
        {
            let ghost n = s.len() - rest@.len();
            let e = rest.remove(0);
            assert(e == s[n]);
            assert(rest@ =~= s.skip(n + 1));
            assert(s.take(n + 1) =~= s.take(n).push(e));
            assert(s.take(n + 1).drop_last() =~= s.take(n));
            proof {
                lemma_entries_map_lookup(s.take(n), e.key@);
            }
            assert(!entries_map(s.take(n)).contains_key(e.key@)) by {
                if entries_map(s.take(n)).contains_key(e.key@) {
                    let i = choose|i: int| 0 <= i < s.take(n).len() && s.take(n)[i].key@ == e.key@;
                    assert(s[i].key@ == s[n].key@);
                }
            }
            let elapsed = now.saturating_sub(e.created_at);
            if elapsed <= self.ttl {
                let ghost kb = kept@;
                assert forall|j: int| 0 <= j < kb.len() implies kb[j].key@ != e.key@ by {
                    let i = choose|i: int| 0 <= i < n && s[i].key@ == #[trigger] kb[j].key@;
                    assert(s[i].key@ != s[n].key@);
                }
                kept.push(e);
                assert(kept@.drop_last() =~= kb);
                assert(entries_map(kept@) =~= fresh_entries(entries_map(s.take(n + 1)), ttl, now));
            } else {
                assert(entries_map(kept@) =~= fresh_entries(entries_map(s.take(n + 1)), ttl, now));
            }
        }
        assert(s.take(s.len() as int) =~= s);
        self.entries = kept;
    }

    /// Drops every entry that is no longer fresh.
    pub fn cleanup(&mut self)
        requires
            old(self).wf(),
        ensures
            final(self).wf(),
            exists|now: u64| final(self)@ == fresh_entries(old(self)@, old(self).ttl_spec(), now),
            final(self).ttl_spec() == old(self).ttl_spec(),
    {
        let now = self.clock.now_nanos();
        self.cleanup_at(now);
    }

    /// Drops every entry.
    pub fn clear(&mut self)
        requires
            old(self).wf(),
        ensures
            final(self).wf(),
            final(self)@ == Map::<Seq<char>, CacheRecord>::empty(),
            final(self).ttl_spec() == old(self).ttl_spec(),
    {
        self.entries = Vec::new();
        assert(self@ =~= Map::<Seq<char>, CacheRecord>::empty());
    }
}

/// A read gives back what the last write under the same key stored, as long as it is
/// no older than the time to live, and nothing afterwards; writes under other keys
/// do not disturb it.
pub proof fn read_gives_back_write(
    m: Map<Seq<char>, CacheRecord>,
    ttl: u64,
    key: Seq<char>,
    other: Seq<char>,
    results: Seq<SongItem>,
    stored_at: u64,
    now: u64,
)
    requires
        other != key,
    ensures
        lookup_at(m.insert(key, (results, stored_at)), ttl, key, now) == (if age(now, stored_at)
            <= ttl {
            Some(results)
        } else {
            None
        }),
        lookup_at(m.insert(key, (results, stored_at)), ttl, other, now) == lookup_at(
            m,
            ttl,
            other,
            now,
        ),
{
}

/// Cleaning up never changes what a read at the same time gives.
pub proof fn cleanup_keeps_fresh_reads(
    m: Map<Seq<char>, CacheRecord>,
    ttl: u64,
    key: Seq<char>,
    now: u64,
)
    ensures
        lookup_at(fresh_entries(m, ttl, now), ttl, key, now) == lookup_at(m, ttl, key, now),
{
}

impl Default for SearchCache {
    fn default() -> (r: Self)
        ensures
            r.wf(),
            r@ == Map::<Seq<char>, CacheRecord>::empty(),
            r.ttl_spec() == SEARCH_CACHE_TTL_NANOS,
    {
        Self::new()
    }
}

} // verus!
