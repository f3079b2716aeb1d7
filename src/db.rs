//! The query facade's decisions: which statements may be answered from the
//! cache, and what the cache becomes after the store answers.

use vstd::prelude::*;
use vstd::string::*;
use vstd::utf8::{encode_utf8, is_ascii_chars, is_ascii_chars_encode_utf8};
use crate::cache::{after_put, is_fresh, CacheSlot, QueryCache, CACHE_TTL_SECS};
use crate::clock::now_seconds;
use crate::error::AppError;
use crate::key::{cache_key, key_of, params_bytes};

verus! {

pub open spec fn is_blank(b: u8) -> bool {
    b == 0x20 || b == 0x09 || b == 0x0a || b == 0x0d
}

pub open spec fn ascii_lower(b: u8) -> u8 {
    if 0x41 <= b <= 0x5a {
        (b + 0x20) as u8
    } else {
        b
    }
}

/// `s` without its leading blanks (space, tab, line feed, carriage return).
pub open spec fn trim_start(s: Seq<u8>) -> Seq<u8>
    decreases s.len(),
{
    if s.len() > 0 && is_blank(s[0]) {
        trim_start(s.drop_first())
    } else {
        s
    }
}

/// The keyword of a read statement, in lower case.
pub open spec fn select_keyword() -> Seq<u8> {
    seq![0x73u8, 0x65u8, 0x6cu8, 0x65u8, 0x63u8, 0x74u8]
}

/// A statement is a read when, after leading blanks, it starts with SELECT in
/// any mix of cases. Only reads are cached.
pub open spec fn is_read_statement(sql: Seq<u8>) -> bool {
    let t = trim_start(sql);
    t.len() >= 6 && forall|k: int| 0 <= k < 6 ==> ascii_lower(#[trigger] t[k]) == select_keyword()[k]
}

/// Whether `sql` is a read statement, whose result may be cached.
pub fn is_read_only(sql: &str) -> (r: bool)
    ensures
        r == is_read_statement(sql.spec_bytes()),
{
    let b = sql.as_bytes();
    let mut i: usize = 0;
    assert(b@.skip(0) =~= b@);
    while i < b.len() && (b[i] == 0x20 || b[i] == 0x09 || b[i] == 0x0a || b[i] == 0x0d)
        invariant
            i <= b.len(),
            trim_start(b@) == trim_start(b@.skip(i as int)),
        decreases b.len() - i,
    {
        proof {
            assert(b@.skip(i as int).drop_first() =~= b@.skip(i + 1));
        }
        i = i + 1;
    }
    proof {
        if i < b.len() {
            assert(b@.skip(i as int)[0] == b@[i as int]);
        }
    }
    let ghost t = b@.skip(i as int);
    assert(trim_start(b@) == t);
    if b.len() - i < 6 {
        return false;
    }
    let kw: [u8; 6] = [0x73, 0x65, 0x6c, 0x65, 0x63, 0x74];
    let mut j: usize = 0;
    while j < 6
        invariant
            t == b@.skip(i as int),
            trim_start(b@) == t,
            t.len() >= 6,
            i + 6 <= b.len(),
            b@ == sql.spec_bytes(),
            kw@ == select_keyword(),
            j <= 6,
            forall|k: int| 0 <= k < j ==> ascii_lower(t[k]) == select_keyword()[k],
        decreases 6 - j,
    {
        let c = b[i + j];
        let lower: u8 = if 0x41 <= c && c <= 0x5a {
            c + 0x20
        } else {
            c
        };
        assert(t[j as int] == c);
        assert(lower == ascii_lower(c));
        if lower != kw[j] {
            assert(ascii_lower(t[j as int]) != select_keyword()[j as int]);
            return false;
        }
        j = j + 1;
    }
    true
}

/// The result served from the cache for `sql` run with `params` at `now`:
/// only a read with a fresh entry under its key is answered without the store.
pub open spec fn cached_answer(
    m: Map<Seq<u8>, CacheSlot>,
    sql: Seq<u8>,
    params: Seq<Seq<u8>>,
    now: i64,
) -> Option<Seq<char>> {
    let k = key_of(sql, params);
    if is_read_statement(sql) && m.contains_key(k) && is_fresh(m[k].1, now) {
        Some(m[k].0)
    } else {
        None
    }
}

/// The cache after the store answered `sql` run with `params` by `rows` at
/// `now`: a read is cached, anything else leaves the cache alone.
pub open spec fn cache_after_success(
    m: Map<Seq<u8>, CacheSlot>,
    sql: Seq<u8>,
    params: Seq<Seq<u8>>,
    rows: Seq<char>,
    now: i64,
) -> Map<Seq<u8>, CacheSlot> {
    if is_read_statement(sql) {
        after_put(m, key_of(sql, params), rows, now)
    } else {
        m
    }
}

/// Owner of the query result cache: answers reads from it while fresh and
/// records what the store returns. The store itself is reached by the caller.
pub struct DatabaseService {
    cache: QueryCache,
    database_url: String,
}

impl View for DatabaseService {
    type V = Map<Seq<u8>, CacheSlot>;

    closed spec fn view(&self) -> Map<Seq<u8>, CacheSlot> {
        self.cache@
    }
}

impl DatabaseService {
    pub closed spec fn wf(&self) -> bool {
        self.cache.wf()
    }

    pub closed spec fn url(&self) -> Seq<char> {
        self.database_url@
    }

    /// A service with an empty cache, for the application's database file.
    pub fn new() -> (r: DatabaseService)
        ensures
            r.wf(),
            r@ == Map::<Seq<u8>, CacheSlot>::empty(),
            r.url() == "sqlite:narrative_surgeon.db"@,
    {
        DatabaseService {
            cache: QueryCache::new(),
            database_url: String::from_str("sqlite:narrative_surgeon.db"),
        }
    }

    pub fn get_database_url(&self) -> (r: &str)
        ensures
            r@ == self.url(),
    {
        self.database_url.as_str()
    }

    /// The result cached under `key` if it is fresh at `now` (seconds).
    pub fn get_cached_result_at(&self, key: &str, now: i64) -> (r: Option<String>)
        requires
            self.wf(),
        ensures
            r is Some <==> (self@.contains_key(key.spec_bytes()) && is_fresh(
                self@[key.spec_bytes()].1,
                now,
            )),
            r is Some ==> r->0@ == self@[key.spec_bytes()].0,
    {
        self.cache.get(key.as_bytes(), now)
    }

    /// The result cached under `key` if it is fresh now.
    pub fn get_cached_result(&self, key: &str) -> (r: Option<String>)
        requires
            self.wf(),
        ensures
            r is Some ==> self@.contains_key(key.spec_bytes()) && r->0@ == self@[key.spec_bytes()].0,
    {
        let now = now_seconds();
        self.get_cached_result_at(key, now)
    }

    /// Stores `value` under `key` as inserted at `now` (seconds).
    pub fn cache_result_at(&mut self, key: &str, value: &str, now: i64)
        requires
            old(self).wf(),
        ensures
            final(self).wf(),
            final(self).url() == old(self).url(),
            final(self)@ == after_put(old(self)@, key.spec_bytes(), value@, now),
    {
        self.cache.put(key.as_bytes(), value, now);
    }

    /// Stores `value` under `key` as inserted now.
    pub fn cache_result(&mut self, key: &str, value: &str)
        requires
            old(self).wf(),
        ensures
            final(self).wf(),
            final(self).url() == old(self).url(),
            exists|now: i64| final(self)@ == after_put(old(self)@, key.spec_bytes(), value@, now),
    {
        let now = now_seconds();
        self.cache_result_at(key, value, now);
    }

    /// Drops every cached result whose key contains `pattern`.
    pub fn invalidate_cache(&mut self, pattern: &str)
        requires
            old(self).wf(),
        ensures
            final(self).wf(),
            final(self).url() == old(self).url(),
            final(self)@ == crate::cache::without_pattern(old(self)@, pattern.spec_bytes()),
    {
        self.cache.invalidate(pattern.as_bytes());
    }

    /// Drops every cached result.
    pub fn clear_cache(&mut self)
        ensures
            final(self).wf(),
            final(self).url() == old(self).url(),
            final(self)@ == Map::<Seq<u8>, CacheSlot>::empty(),
    {
        self.cache.clear();
    }

    /// The answer to `sql` run with `params` that the cache can give at `now`
    /// (seconds). `None` means the store must be asked.
    pub fn lookup_query(&self, sql: &str, params: &Vec<String>, now: i64) -> (r: Option<String>)
        requires
            self.wf(),
        ensures
            r is Some <==> cached_answer(self@, sql.spec_bytes(), params_bytes(params@), now) is Some,
            r is Some ==> r->0@ == cached_answer(self@, sql.spec_bytes(), params_bytes(params@), now)->0,
    {
        if !is_read_only(sql) {
            return None;
        }
        let key = cache_key(sql, params);
        self.cache.get(key.as_slice(), now)
    }

    /// Takes what the store answered to `sql` run with `params` at `now`
    /// (seconds): rows are handed back, and cached if the statement is a read;
    /// a failure message becomes a database error that names the statement,
    /// and the cache is left as it was.
    pub fn record_outcome(
        &mut self,
        sql: &str,
        params: &Vec<String>,
        outcome: Result<String, String>,
        now: i64,
    ) -> (r: Result<String, AppError>)
        requires
            old(self).wf(),
        ensures
            final(self).wf(),
            final(self).url() == old(self).url(),
            match outcome {
                Ok(rows) => r is Ok && r->Ok_0@ == rows@ && final(self)@ == cache_after_success(
                    old(self)@,
                    sql.spec_bytes(),
                    params_bytes(params@),
                    rows@,
                    now,
                ),
                Err(msg) => final(self)@ == old(self)@ && (r matches Err(
                    AppError::Database { message, code, query, .. },
                ) && message@ == msg@ && code is None && query is Some && query->0@ == sql@),
            },
    {
        match outcome {
            Ok(rows) => {
                if is_read_only(sql) {
                    let key = cache_key(sql, params);
                    self.cache.put(key.as_slice(), rows.as_str(), now);
                }
                Ok(rows)
            },
            Err(msg) => Err(AppError::database_with_query(msg.as_str(), sql)),
        }
    }
}

/// A read answered by the store at `t1` is answered from the cache, with the
/// same rows, by any later call within the time-to-live: the store is asked
/// once for both calls.
pub proof fn cache_round_trip(
    m: Map<Seq<u8>, CacheSlot>,
    sql: Seq<u8>,
    params: Seq<Seq<u8>>,
    rows: Seq<char>,
    t1: i64,
    t2: i64,
)
    requires
        is_read_statement(sql),
        t1 <= t2 < t1 + CACHE_TTL_SECS,
    ensures
        cached_answer(cache_after_success(m, sql, params, rows, t1), sql, params, t2) == Some(rows),
{
}

/// Once the time-to-live has passed, the same read is no longer answered
/// from the cache: the store is asked again.
pub proof fn cache_expiry(
    m: Map<Seq<u8>, CacheSlot>,
    sql: Seq<u8>,
    params: Seq<Seq<u8>>,
    rows: Seq<char>,
    t1: i64,
    t2: i64,
)
    requires
        t2 >= t1 + CACHE_TTL_SECS,
    ensures
        cached_answer(cache_after_success(m, sql, params, rows, t1), sql, params, t2) is None,
{
}

/// A statement that is not a read is never answered from the cache, whatever
/// it holds, and its result never changes the cache.
pub proof fn write_bypass(
    m: Map<Seq<u8>, CacheSlot>,
    sql: Seq<u8>,
    params: Seq<Seq<u8>>,
    rows: Seq<char>,
    now: i64,
)
    requires
        !is_read_statement(sql),
    ensures
        cached_answer(m, sql, params, now) is None,
        cache_after_success(m, sql, params, rows, now) == m,
{
}

/// A statement written in ASCII whose first character is a letter other than
/// `s` or `S` (an INSERT, UPDATE, DELETE or PRAGMA) is not a read.
pub proof fn lemma_not_read(sql: Seq<char>)
    requires
        is_ascii_chars(sql),
        sql.len() > 0,
        ('A' <= sql[0] <= 'Z' || 'a' <= sql[0] <= 'z'),
        sql[0] != 's',
        sql[0] != 'S',
    ensures
        !is_read_statement(encode_utf8(sql)),
{
    is_ascii_chars_encode_utf8(sql);
    let b = encode_utf8(sql);
    assert(b[0] == sql[0] as u8);
    assert(!is_blank(b[0]));
    assert(trim_start(b) == b);
    assert(ascii_lower(b[0]) != select_keyword()[0]);
}

} // verus!
