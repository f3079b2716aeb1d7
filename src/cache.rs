//! The query result cache: entries visible for a fixed time, swept when the
//! cache grows past its capacity, removable by key pattern.

use vstd::prelude::*;
use crate::bytes::{bytes_equal, contains_bytes, copy_bytes, find_bytes};

verus! {

/// Seconds for which a cached result stays visible.
pub const CACHE_TTL_SECS: i64 = 300;

/// Entry count above which an insertion sweeps out expired entries.
pub const CACHE_CAPACITY: usize = 1000;

/// One cached result: the key it was stored under, the serialised result and
/// the time of insertion in seconds.
#[derive(Debug)]
pub struct CachedEntry {
    pub key: Vec<u8>,
    pub value: String,
    pub inserted_at: i64,
}

/// What the cache holds for a key: the serialised result and its insertion time.
pub type CacheSlot = (Seq<char>, i64);

/// An entry inserted at `inserted_at` is still visible at time `now`.
pub open spec fn is_fresh(inserted_at: i64, now: i64) -> bool {
    now - inserted_at < CACHE_TTL_SECS
}

pub open spec fn slot_of(e: CachedEntry) -> CacheSlot {
    (e.value@, e.inserted_at)
}

/// The contents of a list of entries, later entries shadowing earlier ones.
pub open spec fn map_of(s: Seq<CachedEntry>) -> Map<Seq<u8>, CacheSlot>
    decreases s.len(),
{
    if s.len() == 0 {
        Map::empty()
    } else {
        map_of(s.drop_last()).insert(s.last().key@, slot_of(s.last()))
    }
}

pub open spec fn keys_unique(s: Seq<CachedEntry>) -> bool {
    forall|i: int, j: int| 0 <= i < j < s.len() ==> s[i].key@ != s[j].key@
}

/// The entries of `m` that are still fresh at `now`.
pub open spec fn fresh_part(m: Map<Seq<u8>, CacheSlot>, now: i64) -> Map<Seq<u8>, CacheSlot> {
    Map::new(|k: Seq<u8>| m.contains_key(k) && is_fresh(m[k].1, now), |k: Seq<u8>| m[k])
}

/// The entries of `m` whose key does not contain `pattern`.
pub open spec fn without_pattern(m: Map<Seq<u8>, CacheSlot>, pattern: Seq<u8>) -> Map<Seq<u8>, CacheSlot> {
    Map::new(|k: Seq<u8>| m.contains_key(k) && !contains_bytes(k, pattern), |k: Seq<u8>| m[k])
}

/// The contents after `put`: the new entry, then, above capacity, only what
/// is still fresh.
pub open spec fn after_put(m: Map<Seq<u8>, CacheSlot>, key: Seq<u8>, value: Seq<char>, now: i64) -> Map<
    Seq<u8>,
    CacheSlot,
> {
    let inserted = m.insert(key, (value, now));
    if inserted.dom().len() > CACHE_CAPACITY {
        fresh_part(inserted, now)
    } else {
        inserted
    }
}

proof fn lemma_map_of_contains(s: Seq<CachedEntry>, k: Seq<u8>)
    ensures
        map_of(s).contains_key(k) <==> exists|i: int| 0 <= i < s.len() && s[i].key@ == k,
    decreases s.len(),
{
    if s.len() > 0 {
        let p = s.drop_last();
        lemma_map_of_contains(p, k);
        if map_of(p).contains_key(k) {
            let i = choose|i: int| 0 <= i < p.len() && p[i].key@ == k;
            assert(s[i] == p[i]);
        }
        if exists|i: int| 0 <= i < s.len() && s[i].key@ == k {
            let i = choose|i: int| 0 <= i < s.len() && s[i].key@ == k;
            if i < s.len() - 1 {
                assert(p[i] == s[i]);
            }
        }
    }
}

proof fn lemma_map_of_get(s: Seq<CachedEntry>, i: int)
    requires
        keys_unique(s),
        0 <= i < s.len(),
    ensures
        map_of(s).contains_key(s[i].key@),
        map_of(s)[s[i].key@] == slot_of(s[i]),
    decreases s.len(),
{
    if i < s.len() - 1 {
        let p = s.drop_last();
        assert(p[i] == s[i]);
        assert(keys_unique(p));
        lemma_map_of_get(p, i);
    }
}

proof fn lemma_map_of_len(s: Seq<CachedEntry>)
    requires
        keys_unique(s),
    ensures
        map_of(s).dom().finite(),
        map_of(s).dom().len() == s.len(),
    decreases s.len(),
{
    if s.len() > 0 {
        let p = s.drop_last();
        assert(keys_unique(p));
        lemma_map_of_len(p);
        lemma_map_of_contains(p, s.last().key@);
        if map_of(p).contains_key(s.last().key@) {
            let i = choose|i: int| 0 <= i < p.len() && p[i].key@ == s.last().key@;
            assert(s[i] == p[i]);
        }
        assert(map_of(s).dom() == map_of(p).dom().insert(s.last().key@));
    }
}

proof fn lemma_map_of_update(s: Seq<CachedEntry>, i: int, e: CachedEntry)
    requires
        keys_unique(s),
        0 <= i < s.len(),
        s[i].key@ == e.key@,
    ensures
        keys_unique(s.update(i, e)),
        map_of(s.update(i, e)) == map_of(s).insert(e.key@, slot_of(e)),
{
    let u = s.update(i, e);
    assert(keys_unique(u)) by {
        assert forall|a: int, b: int| 0 <= a < b < u.len() implies u[a].key@ != u[b].key@ by {
            assert(u[a].key@ == s[a].key@);
            assert(u[b].key@ == s[b].key@);
        }
    }
    let m = map_of(s).insert(e.key@, slot_of(e));
    assert forall|k: Seq<u8>| #[trigger] map_of(u).contains_key(k) <==> m.contains_key(k) by {
        lemma_map_of_contains(u, k);
        lemma_map_of_contains(s, k);
        if exists|j: int| 0 <= j < s.len() && s[j].key@ == k {
            let j = choose|j: int| 0 <= j < s.len() && s[j].key@ == k;
            assert(u[j].key@ == k);
        }
        if exists|j: int| 0 <= j < u.len() && u[j].key@ == k {
            let j = choose|j: int| 0 <= j < u.len() && u[j].key@ == k;
            assert(s[j].key@ == k);
        }
    }
    assert forall|k: Seq<u8>| map_of(u).contains_key(k) implies map_of(u)[k] == m[k] by {
        lemma_map_of_contains(u, k);
        let j = choose|j: int| 0 <= j < u.len() && u[j].key@ == k;
        lemma_map_of_get(u, j);
        if j != i {
            lemma_map_of_get(s, j);
        }
    }
    assert(map_of(u) =~= m);
}

/// After `s[..i]`, the next entry's key is new.
proof fn lemma_next_key_new(s: Seq<CachedEntry>, i: int)
    requires
        keys_unique(s),
        0 <= i < s.len(),
    ensures
        !map_of(s.take(i)).contains_key(s[i].key@),
        s.take(i + 1).drop_last() == s.take(i),
        s.take(i + 1).last() == s[i],
{
    lemma_map_of_contains(s.take(i), s[i].key@);
    assert(s.take(i + 1).drop_last() =~= s.take(i));
}

/// A time-limited cache of query results, keyed by byte strings. The entries
/// are kept in a vector with unique keys: vstd specifies `HashMap` lookups
/// only for integer-like keys, and these keys are byte strings.
pub struct QueryCache {
    entries: Vec<CachedEntry>,
}

impl View for QueryCache {
    type V = Map<Seq<u8>, CacheSlot>;

    closed spec fn view(&self) -> Map<Seq<u8>, CacheSlot> {
        map_of(self.entries@)
    }
}

impl QueryCache {
    /// No key is stored twice.
    pub closed spec fn wf(&self) -> bool {
        keys_unique(self.entries@)
    }

    pub fn new() -> (c: QueryCache)
        ensures
            c.wf(),
            c@ == Map::<Seq<u8>, CacheSlot>::empty(),
    {
        QueryCache { entries: Vec::new() }
    }

    /// The number of stored entries, expired ones included.
    pub fn len(&self) -> (n: usize)
        requires
            self.wf(),
        ensures
            self@.dom().finite(),
            n == self@.dom().len(),
    {
        proof {
            lemma_map_of_len(self.entries@);
        }
        self.entries.len()
    }

    fn position(&self, key: &[u8]) -> (r: Option<usize>)
        requires
            self.wf(),
        ensures
            r is None ==> !self@.contains_key(key@),
            r is Some ==> r->0 < self.entries.len() && self.entries@[r->0 as int].key@ == key@,
    {
        let mut i: usize = 0;
        while i < self.entries.len()
            invariant
                i <= self.entries.len(),
                forall|j: int| 0 <= j < i ==> self.entries@[j].key@ != key@,
            decreases self.entries.len() - i,
        {
            if bytes_equal(self.entries[i].key.as_slice(), key) {
                return Some(i);
            }
            i = i + 1;
        }
        proof {
            lemma_map_of_contains(self.entries@, key@);
        }
        None
    }

    /// The result stored under `key`, if there is one and it is still fresh at
    /// `now` (seconds).
    pub fn get(&self, key: &[u8], now: i64) -> (r: Option<String>)
        requires
            self.wf(),
        ensures
            r is Some <==> (self@.contains_key(key@) && is_fresh(self@[key@].1, now)),
            r is Some ==> r->0@ == self@[key@].0,
    {
        match self.position(key) {
            None => None,
            Some(i) => {
                proof {
                    lemma_map_of_get(self.entries@, i as int);
                }
                let e = &self.entries[i];
                if (now as i128) - (e.inserted_at as i128) < CACHE_TTL_SECS as i128 {
                    Some(e.value.clone())
                } else {
                    None
                }
            },
        }
    }

    /// Keeps only the entries that are fresh at `now`.
    fn sweep_expired(&mut self, now: i64)
        requires
            old(self).wf(),
        ensures
            final(self).wf(),
            final(self)@ == fresh_part(old(self)@, now),
    {
        let mut old_entries: Vec<CachedEntry> = Vec::new();
        std::mem::swap(&mut old_entries, &mut self.entries);
        let ghost s = old_entries@;
        let mut kept: Vec<CachedEntry> = Vec::new();
        let mut i: usize = 0;
        while i < old_entries.len()
            invariant
                old_entries@ == s,
                keys_unique(s),
                i <= s.len(),
                keys_unique(kept@),
                map_of(kept@) == fresh_part(map_of(s.take(i as int)), now),
            decreases s.len() - i,
        {
            let e = &old_entries[i];
            proof {
                lemma_next_key_new(s, i as int);
            }
            if (now as i128) - (e.inserted_at as i128) < CACHE_TTL_SECS as i128 {
                proof {
                    lemma_map_of_contains(kept@, e.key@);
                    if exists|j: int| 0 <= j < kept@.len() && kept@[j].key@ == e.key@ {
                        assert(map_of(kept@).contains_key(e.key@));
                    }
                }
                let c = CachedEntry {
                    key: copy_bytes(e.key.as_slice()),
                    value: e.value.clone(),
                    inserted_at: e.inserted_at,
                };
                let ghost before = kept@;
                kept.push(c);
                proof {
                    assert(kept@.drop_last() == before);
                    assert(map_of(kept@) =~= fresh_part(map_of(s.take(i + 1)), now));
                }
            } else {
                proof {
                    assert(map_of(kept@) =~= fresh_part(map_of(s.take(i + 1)), now));
                }
            }
            i = i + 1;
        }
        proof {
            assert(s.take(s.len() as int) =~= s);
        }
        self.entries = kept;
    }

    /// Stores `value` under `key` at time `now` (seconds), replacing what was
    /// there. Above capacity, every entry that is no longer fresh is then
    /// removed, the new one never among them.
    pub fn put(&mut self, key: &[u8], value: &str, now: i64)
        requires
            old(self).wf(),
        ensures
            final(self).wf(),
            final(self)@ == after_put(old(self)@, key@, value@, now),
    {
        let e = CachedEntry { key: copy_bytes(key), value: String::from_str(value), inserted_at: now };
        match self.position(key) {
            Some(i) => {
                proof {
                    lemma_map_of_update(self.entries@, i as int, e);
                }
                self.entries.set(i, e);
            },
            None => {
                proof {
                    lemma_map_of_contains(self.entries@, key@);
                }
                let ghost before = self.entries@;
                self.entries.push(e);
                proof {
                    assert(self.entries@.drop_last() == before);
                }
            },
        }
        proof {
            lemma_map_of_len(self.entries@);
        }
        if self.entries.len() > CACHE_CAPACITY {
            self.sweep_expired(now);
        }
    }

    /// Removes every entry whose key contains `pattern`.
    pub fn invalidate(&mut self, pattern: &[u8])
        requires
            old(self).wf(),
        ensures
            final(self).wf(),
            final(self)@ == without_pattern(old(self)@, pattern@),
    {
        let mut old_entries: Vec<CachedEntry> = Vec::new();
        std::mem::swap(&mut old_entries, &mut self.entries);
        let ghost s = old_entries@;
        let mut kept: Vec<CachedEntry> = Vec::new();
        let mut i: usize = 0;
        while i < old_entries.len()
            invariant
                old_entries@ == s,
                keys_unique(s),
                i <= s.len(),
                keys_unique(kept@),
                map_of(kept@) == without_pattern(map_of(s.take(i as int)), pattern@),
            decreases s.len() - i,
        {
            let e = &old_entries[i];
            proof {
                lemma_next_key_new(s, i as int);
            }
            if !find_bytes(e.key.as_slice(), pattern) {
                proof {
                    lemma_map_of_contains(kept@, e.key@);
                    if exists|j: int| 0 <= j < kept@.len() && kept@[j].key@ == e.key@ {
                        assert(map_of(kept@).contains_key(e.key@));
                    }
                }
                let c = CachedEntry {
                    key: copy_bytes(e.key.as_slice()),
                    value: e.value.clone(),
                    inserted_at: e.inserted_at,
                };
                let ghost before = kept@;
                kept.push(c);
                proof {
                    assert(kept@.drop_last() == before);
                    assert(map_of(kept@) =~= without_pattern(map_of(s.take(i + 1)), pattern@));
                }
            } else {
                proof {
                    assert(map_of(kept@) =~= without_pattern(map_of(s.take(i + 1)), pattern@));
                }
            }
            i = i + 1;
        }
        proof {
            assert(s.take(s.len() as int) =~= s);
        }
        self.entries = kept;
    }

    /// Removes every entry.
    pub fn clear(&mut self)
        ensures
            final(self).wf(),
            final(self)@ == Map::<Seq<u8>, CacheSlot>::empty(),
    {
        self.entries.clear();
    }
}

} // verus!
