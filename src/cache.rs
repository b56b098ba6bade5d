//! A size-bounded LRU cache of evaluation results with a per-entry lifetime.
//!
//! Entries are kept from least to most recently used. Times are nanoseconds
//! since the Unix epoch and are passed in by the caller; lifetimes are in
//! seconds.
use vstd::prelude::*;
use vstd::string::StringExecFns;
use crate::digest::{hex_digest, sha256_hex};
use crate::patterns::{normalized, PatternMatcher};
use crate::types::{EvaluationResult, EvaluationType};

verus! {

/// A cached result with the time it was stored.
#[derive(Debug, Clone)]
pub struct CachedResult {
    pub key: String,
    pub result: EvaluationResult,
    pub cached_at: i64,
}

impl CachedResult {
    /// Whether the entry is stale at `now` for a lifetime of `ttl_secs`.
    pub fn is_expired_at(&self, ttl_secs: u64, now: i64) -> (r: bool)
        ensures
            r == !fresh(self.cached_at, now, ttl_secs),
    {
        let age: i128 = now as i128 - self.cached_at as i128;
        !(0 <= age && age <= ttl_secs as i128 * 1_000_000_000)
    }
}

/// Counters and sizes of a cache.
#[derive(Debug, Clone, Copy, Default)]
pub struct CacheStats {
    pub size: usize,
    pub capacity: usize,
    pub hits: u64,
    pub misses: u64,
}

/// An entry stored at `at` is fresh at `now` while its age is within `ttl`
/// seconds.
pub open spec fn fresh(at: i64, now: i64, ttl: u64) -> bool {
    0 <= now - at <= ttl * 1_000_000_000
}

/// A counter after one more event (it stays at the largest `u64`).
pub open spec fn bumped(n: u64) -> u64 {
    if n < u64::MAX {
        (n + 1) as u64
    } else {
        n
    }
}

/// Index of the entry with key `k`, if any.
pub open spec fn find_key(es: Seq<CachedResult>, k: Seq<char>) -> Option<int>
    decreases es.len(),
{
    if es.len() == 0 {
        None
    } else if es.last().key@ == k {
        Some(es.len() - 1)
    } else {
        find_key(es.drop_last(), k)
    }
}

/// Keys are unique.
pub open spec fn unique_keys(es: Seq<CachedResult>) -> bool {
    forall|i: int, j: int|
        0 <= i < j < es.len() ==> (#[trigger] es[i]).key@ != (#[trigger] es[j]).key@
}

/// What a lookup of `k` at `now` finds.
pub open spec fn lookup(es: Seq<CachedResult>, k: Seq<char>, now: i64, ttl: u64) -> Option<
    EvaluationResult,
> {
    match find_key(es, k) {
        Some(i) => if fresh(es[i].cached_at, now, ttl) {
            Some(es[i].result)
        } else {
            None
        },
        None => None,
    }
}

/// The entries after a lookup of `k` at `now`: a fresh hit moves to the
/// most recent end, a stale entry is removed.
pub open spec fn after_lookup(es: Seq<CachedResult>, k: Seq<char>, now: i64, ttl: u64) -> Seq<
    CachedResult,
> {
    match find_key(es, k) {
        Some(i) => if fresh(es[i].cached_at, now, ttl) {
            es.remove(i).push(es[i])
        } else {
            es.remove(i)
        },
        None => es,
    }
}

/// The entries after storing `e`: an entry of the same key is replaced, and
/// when the cache is full the least recently used entry is evicted.
pub open spec fn after_insert(es: Seq<CachedResult>, e: CachedResult, cap: nat) -> Seq<
    CachedResult,
> {
    let base = match find_key(es, e.key@) {
        Some(i) => es.remove(i),
        None => es,
    };
    if base.len() >= cap && base.len() > 0 {
        base.remove(0).push(e)
    } else {
        base.push(e)
    }
}

/// The entries with those expired at `now` removed.
pub open spec fn unexpired(es: Seq<CachedResult>, now: i64, ttl: u64) -> Seq<CachedResult>
    decreases es.len(),
{
    if es.len() == 0 {
        Seq::empty()
    } else if fresh(es.last().cached_at, now, ttl) {
        unexpired(es.drop_last(), now, ttl).push(es.last())
    } else {
        unexpired(es.drop_last(), now, ttl)
    }
}

proof fn lemma_find_key(es: Seq<CachedResult>, k: Seq<char>)
    ensures
        find_key(es, k) matches Some(i) ==> 0 <= i < es.len() && es[i].key@ == k,
        find_key(es, k) is None ==> forall|j: int| 0 <= j < es.len() ==> (#[trigger] es[j]).key@ != k,
    decreases es.len(),
{
    if es.len() > 0 {
        lemma_find_key(es.drop_last(), k);
        if es.last().key@ != k {
            assert forall|j: int| 0 <= j < es.len() - 1 implies es.drop_last()[j] == es[j] by {}
        }
    }
}

proof fn lemma_find_unique(es: Seq<CachedResult>, k: Seq<char>, i: int)
    requires
        unique_keys(es),
        0 <= i < es.len(),
        es[i].key@ == k,
    ensures
        find_key(es, k) == Some(i),
    decreases es.len(),
{
    if i < es.len() - 1 {
        assert(es.last().key@ != k);
        assert(es.drop_last()[i] == es[i]);
        assert(unique_keys(es.drop_last()));
        lemma_find_unique(es.drop_last(), k, i);
    }
}

/// A result stored at time `t` is found by a lookup of its key at any `now`
/// with `t <= now <= t + ttl`, when nothing else happened in between.
pub proof fn lemma_insert_then_lookup(
    es: Seq<CachedResult>,
    e: CachedResult,
    cap: nat,
    now: i64,
    ttl: u64,
)
    requires
        cap >= 1,
        fresh(e.cached_at, now, ttl),
    ensures
        lookup(after_insert(es, e, cap), e.key@, now, ttl) == Some(e.result),
{
    let a = after_insert(es, e, cap);
    lemma_find_key(a, e.key@);
    assert(a.last() == e);
}

/// A lookup finds a result only if an entry with that key holds it and was
/// stored within the lifetime.
pub proof fn lemma_lookup_sound(es: Seq<CachedResult>, k: Seq<char>, now: i64, ttl: u64)
    ensures
        lookup(es, k, now, ttl) matches Some(v) ==> exists|i: int|
            0 <= i < es.len() && (#[trigger] es[i]).key@ == k && es[i].result == v && fresh(
                es[i].cached_at,
                now,
                ttl,
            ),
{
    lemma_find_key(es, k);
}

/// A full cache evicts its least recently used entry on an insert of a new
/// key; a lookup of the evicted key then finds nothing.
pub proof fn lemma_eviction_displaces(
    es: Seq<CachedResult>,
    e: CachedResult,
    cap: nat,
    now: i64,
    ttl: u64,
)
    requires
        cap >= 1,
        es.len() == cap,
        unique_keys(es),
        find_key(es, e.key@) is None,
    ensures
        lookup(after_insert(es, e, cap), es[0].key@, now, ttl) is None,
{
    let a = after_insert(es, e, cap);
    lemma_find_key(es, e.key@);
    assert(a =~= es.remove(0).push(e));
    assert forall|j: int| 0 <= j < a.len() implies (#[trigger] a[j]).key@ != es[0].key@ by {
        if j < a.len() - 1 {
            assert(a[j] == es[j + 1]);
        } else {
            assert(es[0].key@ != e.key@);
        }
    }
    lemma_find_key(a, es[0].key@);
}

/// An LRU cache with per-entry lifetime and hit/miss counters.
pub struct EvaluationCache {
    entries: Vec<CachedResult>,
    capacity: usize,
    ttl_secs: u64,
    hits: u64,
    misses: u64,
}

/// The type tag that the cache key uses.
pub open spec fn cache_tag(t: EvaluationType) -> Seq<char> {
    match t {
        EvaluationType::Plan => "plan"@,
        EvaluationType::Code => "code"@,
        EvaluationType::Tests => "tests"@,
        EvaluationType::FinalCheck => "final"@,
    }
}

/// The key of a request: hex SHA-256 of normalized code, language and tag.
pub open spec fn key_of(code: Seq<char>, language: Seq<char>, t: EvaluationType) -> Seq<char> {
    hex_digest(normalized(code) + language + cache_tag(t))
}

impl EvaluationCache {
    pub closed spec fn entries_spec(&self) -> Seq<CachedResult> {
        self.entries@
    }

    pub closed spec fn capacity_spec(&self) -> nat {
        self.capacity as nat
    }

    pub closed spec fn ttl_spec(&self) -> u64 {
        self.ttl_secs
    }

    pub closed spec fn hits_spec(&self) -> u64 {
        self.hits
    }

    pub closed spec fn misses_spec(&self) -> u64 {
        self.misses
    }

    /// At least one slot, no more entries than slots, unique keys.
    pub closed spec fn wf(&self) -> bool {
        self.capacity >= 1 && self.entries@.len() <= self.capacity && unique_keys(self.entries@)
    }

    /// An empty cache; a capacity of 0 is taken as 100.
    pub fn new(capacity: usize, ttl_secs: u64) -> (r: EvaluationCache)
        ensures
            r.wf(),
            r.entries_spec().len() == 0,
            r.capacity_spec() == if capacity == 0 {
                100
            } else {
                capacity as nat
            },
            r.ttl_spec() == ttl_secs,
            r.hits_spec() == 0,
            r.misses_spec() == 0,
    {
        let cap = if capacity == 0 {
            100
        } else {
            capacity
        };
        EvaluationCache { entries: Vec::new(), capacity: cap, ttl_secs, hits: 0, misses: 0 }
    }

    /// 100 entries living five minutes.
    pub fn default_config() -> (r: EvaluationCache)
        ensures
            r.wf(),
            r.entries_spec().len() == 0,
            r.capacity_spec() == 100,
            r.ttl_spec() == 300,
    {
        EvaluationCache::new(100, 300)
    }

    /// The key of a request.
    pub fn cache_key(code: &str, language: &str, eval_type: &EvaluationType) -> (r: String)
        ensures
            r@ == key_of(code@, language@, *eval_type),
            r@.len() == 64,
    {
        let mut text = PatternMatcher::normalize_code(code);
        text.append(language);
        match eval_type {
            EvaluationType::Plan => text.append("plan"),
            EvaluationType::Code => text.append("code"),
            EvaluationType::Tests => text.append("tests"),
            EvaluationType::FinalCheck => text.append("final"),
        }
        sha256_hex(text.as_str())
    }

    fn position(&self, key: &str) -> (r: Option<usize>)
        ensures
            match r {
                Some(i) => find_key(self.entries@, key@) == Some(i as int),
                None => find_key(self.entries@, key@) is None,
            },
    {
        let mut i = self.entries.len();
        assert(self.entries@.subrange(0, i as int) =~= self.entries@);
        while i > 0
            invariant
                i <= self.entries@.len(),
                find_key(self.entries@, key@) == find_key(self.entries@.subrange(0, i as int), key@),
            decreases i,
        {
            proof {
                assert(self.entries@.subrange(0, i as int).drop_last() =~= self.entries@.subrange(
                    0,
                    i - 1,
                ));
            }
            if self.entries[i - 1].key.as_str().unicode_len() == key.unicode_len() && crate::text::eq_text(
                self.entries[i - 1].key.as_str(),
                key,
            ) {
                return Some(i - 1);
            }
            i -= 1;
        }
        None
    }

    /// The result stored under `key` if it is still fresh at `now`. A hit
    /// makes the entry the most recently used; a stale entry is removed.
    pub fn get_at(&mut self, key: &str, now: i64) -> (r: Option<&EvaluationResult>)
        requires
            old(self).wf(),
        ensures
            final(self).wf(),
            r == match lookup(old(self).entries_spec(), key@, now, old(self).ttl_spec()) {
                Some(v) => Some(&v),
                None => None::<&EvaluationResult>,
            },
            final(self).entries_spec() == after_lookup(
                old(self).entries_spec(),
                key@,
                now,
                old(self).ttl_spec(),
            ),
            final(self).capacity_spec() == old(self).capacity_spec(),
            final(self).ttl_spec() == old(self).ttl_spec(),
            final(self).hits_spec() == if lookup(old(self).entries_spec(), key@, now, old(self).ttl_spec()) is Some {
                bumped(old(self).hits_spec())
            } else {
                old(self).hits_spec()
            },
            final(self).misses_spec() == if lookup(old(self).entries_spec(), key@, now, old(self).ttl_spec()) is None {
                bumped(old(self).misses_spec())
            } else {
                old(self).misses_spec()
            },
    {
        proof {
            lemma_find_key(self.entries@, key@);
        }
        match self.position(key) {
            None => {
                self.misses = if self.misses < u64::MAX {
                    self.misses + 1
                } else {
                    self.misses
                };
                None
            },
            Some(i) => {
                let at = self.entries[i].cached_at;
                let age: i128 = now as i128 - at as i128;
                if 0 <= age && age <= self.ttl_secs as i128 * 1_000_000_000 {
                    let ghost es = self.entries@;
                    let e = self.entries.remove(i);
                    self.entries.push(e);
                    proof {
                        assert forall|a: int, b: int|
                            0 <= a < b < self.entries@.len() implies (#[trigger] self.entries@[a]).key@
                            != (#[trigger] self.entries@[b]).key@ by {
                            let ra = if a < i { a } else { a + 1 };
                            let rb = if b == self.entries@.len() - 1 {
                                i as int
                            } else if b < i {
                                b
                            } else {
                                b + 1
                            };
                            assert(self.entries@[a] == es[ra]);
                            assert(self.entries@[b] == es[rb]);
                        }
                    }
                    self.hits = if self.hits < u64::MAX {
                        self.hits + 1
                    } else {
                        self.hits
                    };
                    let last = self.entries.len() - 1;
                    Some(&self.entries[last].result)
                } else {
                    let ghost es = self.entries@;
                    self.entries.remove(i);
                    proof {
                        assert forall|a: int, b: int|
                            0 <= a < b < self.entries@.len() implies (#[trigger] self.entries@[a]).key@
                            != (#[trigger] self.entries@[b]).key@ by {
                            let ra = if a < i { a } else { a + 1 };
                            let rb = if b < i { b } else { b + 1 };
                            assert(self.entries@[a] == es[ra]);
                            assert(self.entries@[b] == es[rb]);
                        }
                    }
                    self.misses = if self.misses < u64::MAX {
                        self.misses + 1
                    } else {
                        self.misses
                    };
                    None
                }
            },
        }
    }

    /// The result stored under `key` if it is still fresh now.
    pub fn get(&mut self, key: &str) -> (r: Option<&EvaluationResult>)
        requires
            old(self).wf(),
        ensures
            final(self).wf(),
            r matches Some(v) ==> exists|i: int|
                0 <= i < old(self).entries_spec().len() && (#[trigger] old(
                    self,
                ).entries_spec()[i]).key@ == key@ && old(self).entries_spec()[i].result == *v,
            r is Some ==> final(self).hits_spec() == bumped(old(self).hits_spec())
                && final(self).misses_spec() == old(self).misses_spec(),
            r is None ==> final(self).misses_spec() == bumped(old(self).misses_spec())
                && final(self).hits_spec() == old(self).hits_spec(),
            find_key(old(self).entries_spec(), key@) is None ==> r is None,
    {
        let now = crate::clock::now_nanos();
        proof {
            lemma_lookup_sound(self.entries@, key@, now, self.ttl_secs);
        }
        self.get_at(key, now)
    }

    /// The result stored for this code, language and kind, if still fresh at `now`.
    pub fn get_by_code_at(
        &mut self,
        code: &str,
        language: &str,
        eval_type: &EvaluationType,
        now: i64,
    ) -> (r: Option<&EvaluationResult>)
        requires
            old(self).wf(),
        ensures
            final(self).wf(),
            r == match lookup(
                old(self).entries_spec(),
                key_of(code@, language@, *eval_type),
                now,
                old(self).ttl_spec(),
            ) {
                Some(v) => Some(&v),
                None => None::<&EvaluationResult>,
            },
            final(self).entries_spec() == after_lookup(
                old(self).entries_spec(),
                key_of(code@, language@, *eval_type),
                now,
                old(self).ttl_spec(),
            ),
            final(self).capacity_spec() == old(self).capacity_spec(),
            final(self).ttl_spec() == old(self).ttl_spec(),
            final(self).hits_spec() == if lookup(
                old(self).entries_spec(),
                key_of(code@, language@, *eval_type),
                now,
                old(self).ttl_spec(),
            ) is Some {
                bumped(old(self).hits_spec())
            } else {
                old(self).hits_spec()
            },
            final(self).misses_spec() == if lookup(
                old(self).entries_spec(),
                key_of(code@, language@, *eval_type),
                now,
                old(self).ttl_spec(),
            ) is None {
                bumped(old(self).misses_spec())
            } else {
                old(self).misses_spec()
            },
    {
        let key = Self::cache_key(code, language, eval_type);
        self.get_at(key.as_str(), now)
    }

    /// The result stored for this code, language and kind, if still fresh now.
    pub fn get_by_code(&mut self, code: &str, language: &str, eval_type: &EvaluationType) -> (r:
        Option<&EvaluationResult>)
        requires
            old(self).wf(),
        ensures
            final(self).wf(),
            r matches Some(v) ==> exists|i: int|
                0 <= i < old(self).entries_spec().len() && (#[trigger] old(
                    self,
                ).entries_spec()[i]).key@ == key_of(code@, language@, *eval_type)
                    && old(self).entries_spec()[i].result == *v,
            r is Some ==> final(self).hits_spec() == bumped(old(self).hits_spec())
                && final(self).misses_spec() == old(self).misses_spec(),
            r is None ==> final(self).misses_spec() == bumped(old(self).misses_spec())
                && final(self).hits_spec() == old(self).hits_spec(),
    {
        let now = crate::clock::now_nanos();
        proof {
            lemma_lookup_sound(self.entries@, key_of(code@, language@, *eval_type), now, self.ttl_secs);
        }
        self.get_by_code_at(code, language, eval_type, now)
    }

    /// Stores `result` under `key` at time `now`, replacing an entry of the
    /// same key and evicting the least recently used one when full.
    pub fn insert_at(&mut self, key: String, result: EvaluationResult, now: i64)
        requires
            old(self).wf(),
        ensures
            final(self).wf(),
            final(self).entries_spec() == after_insert(
                old(self).entries_spec(),
                CachedResult { key, result, cached_at: now },
                old(self).capacity_spec(),
            ),
            final(self).capacity_spec() == old(self).capacity_spec(),
            final(self).ttl_spec() == old(self).ttl_spec(),
            final(self).hits_spec() == old(self).hits_spec(),
            final(self).misses_spec() == old(self).misses_spec(),
    {
        proof {
            lemma_find_key(self.entries@, key@);
        }
        let ghost es = self.entries@;
        match self.position(key.as_str()) {
            Some(i) => {
                self.entries.remove(i);
            },
            None => {},
        }
        let ghost base = self.entries@;
        proof {
            assert forall|a: int, b: int|
                0 <= a < b < base.len() implies (#[trigger] base[a]).key@ != (#[trigger] base[b]).key@ by {
                if base.len() < es.len() {
                    let i = find_key(es, key@)->0;
                    let ra = if a < i { a } else { a + 1 };
                    let rb = if b < i { b } else { b + 1 };
                    assert(base[a] == es[ra]);
                    assert(base[b] == es[rb]);
                }
            }
            assert forall|a: int| 0 <= a < base.len() implies (#[trigger] base[a]).key@ != key@ by {
                if base.len() < es.len() {
                    let i = find_key(es, key@)->0;
                    let ra = if a < i { a } else { a + 1 };
                    assert(base[a] == es[ra]);
                } else {
                    assert(base[a] == es[a]);
                }
            }
        }
        if self.entries.len() >= self.capacity && self.entries.len() > 0 {
            self.entries.remove(0);
        }
        let ghost mid = self.entries@;
        self.entries.push(CachedResult { key, result, cached_at: now });
        proof {
            assert forall|a: int, b: int|
                0 <= a < b < self.entries@.len() implies (#[trigger] self.entries@[a]).key@
                != (#[trigger] self.entries@[b]).key@ by {
                if mid.len() < base.len() {
                    if b < self.entries@.len() - 1 {
                        assert(self.entries@[a] == base[a + 1]);
                        assert(self.entries@[b] == base[b + 1]);
                    } else {
                        assert(self.entries@[a] == base[a + 1]);
                    }
                } else {
                    if b < self.entries@.len() - 1 {
                        assert(self.entries@[a] == base[a]);
                        assert(self.entries@[b] == base[b]);
                    } else {
                        assert(self.entries@[a] == base[a]);
                    }
                }
            }
        }
    }

    /// Stores `result` under `key` now.
    pub fn insert(&mut self, key: String, result: EvaluationResult)
        requires
            old(self).wf(),
        ensures
            final(self).wf(),
            final(self).entries_spec().len() >= 1,
            final(self).entries_spec().last().key@ == key@,
            final(self).entries_spec().last().result == result,
            final(self).hits_spec() == old(self).hits_spec(),
            final(self).misses_spec() == old(self).misses_spec(),
    {
        let now = crate::clock::now_nanos();
        self.insert_at(key, result, now)
    }

    /// Stores `result` for this code, language and kind at time `now`.
    pub fn insert_by_code_at(
        &mut self,
        code: &str,
        language: &str,
        eval_type: &EvaluationType,
        result: EvaluationResult,
        now: i64,
    )
        requires
            old(self).wf(),
        ensures
            final(self).wf(),
            final(self).entries_spec().len() >= 1,
            final(self).entries_spec().last().key@ == key_of(code@, language@, *eval_type),
            final(self).entries_spec().last().result == result,
            final(self).entries_spec().last().cached_at == now,
            final(self).capacity_spec() == old(self).capacity_spec(),
            final(self).ttl_spec() == old(self).ttl_spec(),
            final(self).hits_spec() == old(self).hits_spec(),
            final(self).misses_spec() == old(self).misses_spec(),
    {
        let key = Self::cache_key(code, language, eval_type);
        self.insert_at(key, result, now)
    }

    /// Stores `result` for this code, language and kind now.
    pub fn insert_by_code(
        &mut self,
        code: &str,
        language: &str,
        eval_type: &EvaluationType,
        result: EvaluationResult,
    )
        requires
            old(self).wf(),
        ensures
            final(self).wf(),
            final(self).entries_spec().len() >= 1,
            final(self).entries_spec().last().key@ == key_of(code@, language@, *eval_type),
            final(self).entries_spec().last().result == result,
            final(self).hits_spec() == old(self).hits_spec(),
            final(self).misses_spec() == old(self).misses_spec(),
    {
        let now = crate::clock::now_nanos();
        self.insert_by_code_at(code, language, eval_type, result, now)
    }

    /// Removes the entry stored under `key`, if any.
    pub fn invalidate(&mut self, key: &str)
        requires
            old(self).wf(),
        ensures
            final(self).wf(),
            final(self).entries_spec() == match find_key(old(self).entries_spec(), key@) {
                Some(i) => old(self).entries_spec().remove(i),
                None => old(self).entries_spec(),
            },
    {
        proof {
            lemma_find_key(self.entries@, key@);
        }
        match self.position(key) {
            Some(i) => {
                let ghost es = self.entries@;
                self.entries.remove(i);
                proof {
                    assert forall|a: int, b: int|
                        0 <= a < b < self.entries@.len() implies (#[trigger] self.entries@[a]).key@
                        != (#[trigger] self.entries@[b]).key@ by {
                        let ra = if a < i { a } else { a + 1 };
                        let rb = if b < i { b } else { b + 1 };
                        assert(self.entries@[a] == es[ra]);
                        assert(self.entries@[b] == es[rb]);
                    }
                }
            },
            None => {},
        }
    }

    /// Removes every entry; the counters are kept.
    pub fn clear(&mut self)
        requires
            old(self).wf(),
        ensures
            final(self).wf(),
            final(self).entries_spec().len() == 0,
            final(self).capacity_spec() == old(self).capacity_spec(),
            final(self).hits_spec() == old(self).hits_spec(),
            final(self).misses_spec() == old(self).misses_spec(),
    {
        self.entries = Vec::new();
    }

    /// A snapshot of the size, capacity and counters.
    pub fn stats(&self) -> (r: CacheStats)
        ensures
            r.size == self.entries_spec().len(),
            r.capacity == self.capacity_spec(),
            r.hits == self.hits_spec(),
            r.misses == self.misses_spec(),
    {
        CacheStats {
            size: self.entries.len(),
            capacity: self.capacity,
            hits: self.hits,
            misses: self.misses,
        }
    }

    /// Removes the entries that are stale at `now`, keeping the order of the rest.
    pub fn cleanup_expired_at(&mut self, now: i64)
        requires
            old(self).wf(),
        ensures
            final(self).wf(),
            final(self).entries_spec() == unexpired(old(self).entries_spec(), now, old(self).ttl_spec()),
    {
        let ghost es = self.entries@;
        let mut kept: Vec<CachedResult> = Vec::new();
        let ghost mut k: int = 0;
        while self.entries.len() > 0
            invariant
                0 <= k <= es.len(),
                self.entries@ == es.subrange(k, es.len() as int),
                kept@ == unexpired(es.subrange(0, k), now, self.ttl_secs),
                self.capacity >= 1,
                self.ttl_secs == old(self).ttl_secs,
                self.capacity == old(self).capacity,
                es == old(self).entries@,
            decreases self.entries@.len(),
        {
            let e = self.entries.remove(0);
            let age: i128 = now as i128 - e.cached_at as i128;
            proof {
                assert(es.subrange(0, k + 1).drop_last() =~= es.subrange(0, k));
                assert(es.subrange(0, k + 1).last() == es[k]);
            }
            if 0 <= age && age <= self.ttl_secs as i128 * 1_000_000_000 {
                kept.push(e);
            }
            proof {
                k = k + 1;
                assert(self.entries@ =~= es.subrange(k, es.len() as int));
            }
        }
        proof {
            assert(es.subrange(0, es.len() as int) =~= es);
            lemma_unexpired_sub(es, now, self.ttl_secs);
        }
        self.entries = kept;
    }
}

proof fn lemma_unexpired_sub(es: Seq<CachedResult>, now: i64, ttl: u64)
    requires
        unique_keys(es),
    ensures
        unique_keys(unexpired(es, now, ttl)),
        unexpired(es, now, ttl).len() <= es.len(),
        forall|i: int|
            0 <= i < unexpired(es, now, ttl).len() ==> exists|j: int|
                0 <= j < es.len() && #[trigger] unexpired(es, now, ttl)[i] == es[j],
    decreases es.len(),
{
    if es.len() > 0 {
        let p = es.drop_last();
        assert(unique_keys(p));
        lemma_unexpired_sub(p, now, ttl);
        let u = unexpired(p, now, ttl);
        assert forall|i: int| 0 <= i < u.len() implies exists|j: int|
            0 <= j < es.len() && #[trigger] u[i] == es[j] by {
            let j = choose|j: int| 0 <= j < p.len() && u[i] == p[j];
            assert(p[j] == es[j]);
        }
        if fresh(es.last().cached_at, now, ttl) {
            let w = u.push(es.last());
            assert forall|a: int, b: int| 0 <= a < b < w.len() implies (#[trigger] w[a]).key@
                != (#[trigger] w[b]).key@ by {
                if b == w.len() - 1 {
                    let j = choose|j: int| 0 <= j < p.len() && u[a] == p[j];
                    assert(p[j] == es[j]);
                    assert(es[j].key@ != es[es.len() - 1].key@);
                } else {
                    assert(w[a] == u[a]);
                    assert(w[b] == u[b]);
                }
            }
            assert forall|i: int| 0 <= i < w.len() implies exists|j: int|
                0 <= j < es.len() && #[trigger] w[i] == es[j] by {
                if i == w.len() - 1 {
                    assert(w[i] == es[es.len() - 1]);
                } else {
                    assert(w[i] == u[i]);
                }
            }
        }
    }
}

} // verus!
