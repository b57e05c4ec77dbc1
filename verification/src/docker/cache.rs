//! Cache of Docker validation results keyed by a hash of the source.

use vstd::prelude::*;
use std::collections::HashMap;
use std::hash::{Hash, Hasher};
use crate::docker::validator::{DiagView, DockerDiagnostic, diags_view, duplicate_diags};

verus! {

/// The 64-bit hash `std::collections::hash_map::DefaultHasher` (created with
/// `DefaultHasher::new`) gives of a text hashed as a `str`.
pub uninterp spec fn text_hash(s: Seq<char>) -> u64;

/// `DefaultHasher::new`, then `Hash::hash` of the text, then `Hasher::finish`.
/// Claimed: the result is the named hash of the text.
#[verifier::external_body]
fn hash_text(s: &str) -> (r: u64)
    ensures
        r == text_hash(s@),
{
    let mut hasher = std::collections::hash_map::DefaultHasher::new();
    s.hash(&mut hasher);
    hasher.finish()
}

/// A cached validation result.
#[derive(Debug, Clone, PartialEq, Eq)]
pub struct DockerCacheEntry {
    /// Hash of the source.
    pub content_hash: u64,
    /// The diagnostics.
    pub diagnostics: Vec<DockerDiagnostic>,
    /// Time stamp (always 0).
    pub timestamp: u64,
}

/// Counters of the cache. They stop growing at the largest `usize`.
#[derive(Debug, Clone, Copy, PartialEq, Eq, Structural)]
pub struct DockerCacheMetrics {
    /// Lookups that found an entry.
    pub hits: usize,
    /// Lookups that found none.
    pub misses: usize,
    /// Cached entries.
    pub entries_count: usize,
}

impl Default for DockerCacheMetrics {
    fn default() -> (r: Self)
        ensures
            r == (DockerCacheMetrics { hits: 0, misses: 0, entries_count: 0 }),
    {
        DockerCacheMetrics { hits: 0, misses: 0, entries_count: 0 }
    }
}

/// The diagnostics cached for a hash.
pub open spec fn cached_diags(es: Map<u64, DockerCacheEntry>, h: u64) -> Option<Seq<DiagView>> {
    if es.contains_key(h) {
        Some(diags_view(es[h].diagnostics@))
    } else {
        None
    }
}

/// `a + 1`, or the largest `usize` when that overflows.
pub open spec fn sat_inc(a: usize) -> usize {
    if a == usize::MAX { a } else { (a + 1) as usize }
}

/// A sequence with every occurrence of `h` removed.
pub open spec fn drop_value(s: Seq<u64>, h: u64) -> Seq<u64>
    decreases s.len(),
{
    if s.len() == 0 {
        Seq::empty()
    } else {
        let p = drop_value(s.drop_last(), h);
        if s.last() == h { p } else { p.push(s.last()) }
    }
}

/// A recency order with `h` made the most recently used.
pub open spec fn touched(s: Seq<u64>, h: u64) -> Seq<u64> {
    drop_value(s, h).push(h)
}

/// Removing a value keeps the others, in order, and keeps them distinct.
proof fn lemma_drop_value(s: Seq<u64>, h: u64)
    ensures
        forall|x: u64| drop_value(s, h).contains(x) <==> (s.contains(x) && x != h),
        s.no_duplicates() ==> drop_value(s, h).no_duplicates(),
        s.no_duplicates() && s.contains(h) ==> drop_value(s, h).len() + 1 == s.len(),
        !s.contains(h) ==> drop_value(s, h).len() == s.len(),
    decreases s.len(),
{
    if s.len() > 0 {
        let d = s.drop_last();
        lemma_drop_value(d, h);
        let p = drop_value(d, h);
        assert forall|x: u64| s.contains(x) <==> (d.contains(x) || x == s.last()) by {
            if s.contains(x) {
                let i = choose|i: int| 0 <= i < s.len() && s[i] == x;
                if i < s.len() - 1 {
                    assert(d[i] == x);
                }
            }
            if d.contains(x) {
                let i = choose|i: int| 0 <= i < d.len() && d[i] == x;
                assert(s[i] == x);
            }
            if x == s.last() {
                assert(s[s.len() - 1] == x);
            }
        }
        if s.last() != h {
            assert forall|x: u64| p.push(s.last()).contains(x) <==> (p.contains(x) || x == s.last()) by {
                if p.push(s.last()).contains(x) {
                    let i = choose|i: int| 0 <= i < p.push(s.last()).len() && p.push(s.last())[i] == x;
                    if i < p.len() {
                        assert(p[i] == x);
                    }
                }
                if p.contains(x) {
                    let i = choose|i: int| 0 <= i < p.len() && p[i] == x;
                    assert(p.push(s.last())[i] == x);
                }
                if x == s.last() {
                    assert(p.push(s.last())[p.len() as int] == x);
                }
            }
        }
        if s.no_duplicates() {
            assert(d.no_duplicates()) by {
                assert forall|i: int, j: int| 0 <= i < d.len() && 0 <= j < d.len() && i != j implies d[i] != d[j] by {
                    assert(d[i] == s[i] && d[j] == s[j]);
                }
            }
            assert(!d.contains(s.last())) by {
                if d.contains(s.last()) {
                    let i = choose|i: int| 0 <= i < d.len() && d[i] == s.last();
                    assert(s[i] == s[s.len() - 1]);
                }
            }
            if s.last() != h {
                let q = p.push(s.last());
                assert forall|i: int, j: int| 0 <= i < q.len() && 0 <= j < q.len() && i != j implies q[i] != q[j] by {
                    if i == p.len() && j < p.len() {
                        assert(p.contains(p[j]));
                    } else if j == p.len() && i < p.len() {
                        assert(p.contains(p[i]));
                    }
                }
            }
            if s.contains(h) && s.last() != h {
                assert(d.contains(h));
            }
        }
        if !s.contains(h) {
            assert(!d.contains(h));
            assert(s.last() != h) by {
                assert(s[s.len() - 1] == s.last());
            }
        }
    }
}

/// Making `h` the most recently used keeps the values distinct, holds exactly the
/// old values and `h`, and grows only when `h` was not there.
proof fn lemma_touched(s: Seq<u64>, h: u64)
    requires
        s.no_duplicates(),
    ensures
        touched(s, h).no_duplicates(),
        forall|x: u64| touched(s, h).contains(x) <==> (s.contains(x) || x == h),
        touched(s, h).len() == if s.contains(h) { s.len() } else { s.len() + 1 },
{
    lemma_drop_value(s, h);
    let p = drop_value(s, h);
    let q = p.push(h);
    assert forall|x: u64| q.contains(x) <==> (p.contains(x) || x == h) by {
        if q.contains(x) {
            let i = choose|i: int| 0 <= i < q.len() && q[i] == x;
            if i < p.len() {
                assert(p[i] == x);
            }
        }
        if p.contains(x) {
            let i = choose|i: int| 0 <= i < p.len() && p[i] == x;
            assert(q[i] == x);
        }
        if x == h {
            assert(q[p.len() as int] == x);
        }
    }
    assert forall|i: int, j: int| 0 <= i < q.len() && 0 <= j < q.len() && i != j implies q[i] != q[j] by {
        if i == p.len() && j < p.len() {
            assert(p.contains(p[j]));
        } else if j == p.len() && i < p.len() {
            assert(p.contains(p[i]));
        }
    }
}

/// Makes `h` the most recently used hash of a recency order.
fn touch(order: &mut Vec<u64>, h: u64)
    ensures
        final(order)@ == touched(old(order)@, h),
{
    let ghost s = old(order)@;
    let mut out: Vec<u64> = Vec::new();
    let mut i: usize = 0;
    while i < order.len()
        invariant
            i <= order.len(),
            order@ == s,
            out@ == drop_value(s.take(i as int), h),
        decreases order.len() - i,
    {
        assert(s.take(i + 1).drop_last() =~= s.take(i as int));
        if order[i] != h {
            out.push(order[i]);
        }
        i = i + 1;
    }
    assert(s.take(i as int) =~= s);
    out.push(h);
    *order = out;
}

/// Cache of Docker validation results, evicting the least recently used entry
/// when full.
#[derive(Debug)]
pub struct DockerCache {
    entries: HashMap<u64, DockerCacheEntry>,
    recency: Vec<u64>,
    hits: usize,
    misses: usize,
    max_capacity: usize,
}

impl Default for DockerCache {
    fn default() -> (r: Self)
        ensures
            r.wf(),
            r.entries() == Map::<u64, DockerCacheEntry>::empty(),
            r.capacity() == 256,
            r.counters() == (DockerCacheMetrics { hits: 0, misses: 0, entries_count: 0 }),
    {
        Self::new(256)
    }
}

impl DockerCache {
    /// The cached entries by hash.
    pub closed spec fn entries(&self) -> Map<u64, DockerCacheEntry> {
        self.entries@
    }

    /// The cached hashes, least recently used first.
    pub closed spec fn recency(&self) -> Seq<u64> {
        self.recency@
    }

    /// The capacity.
    pub closed spec fn capacity(&self) -> usize {
        self.max_capacity
    }

    /// The counters.
    pub closed spec fn counters(&self) -> DockerCacheMetrics {
        DockerCacheMetrics { hits: self.hits, misses: self.misses, entries_count: self.entries@.len() as usize }
    }

    /// The recency order lists every cached hash exactly once.
    pub open spec fn wf(&self) -> bool {
        &&& self.recency().no_duplicates()
        &&& forall|h: u64| self.entries().contains_key(h) <==> self.recency().contains(h)
        &&& self.recency().len() == self.entries().len()
    }

    /// Creates an empty cache.
    pub fn new(max_capacity: usize) -> (r: Self)
        ensures
            r.wf(),
            r.entries() == Map::<u64, DockerCacheEntry>::empty(),
            r.capacity() == max_capacity,
            r.counters() == (DockerCacheMetrics { hits: 0, misses: 0, entries_count: 0 }),
    {
        let r = DockerCache { entries: HashMap::new(), recency: Vec::new(), hits: 0, misses: 0, max_capacity };
        assert(r.entries().dom() =~= Set::<u64>::empty());
        r
    }

    /// The hash of a source text.
    pub fn compute_hash(source: &str) -> (r: u64)
        ensures
            r == text_hash(source@),
    {
        hash_text(source)
    }

    /// Copies of the diagnostics cached for a hash; counts a hit or a miss. A hit
    /// makes the hash the most recently used.
    pub fn get(&mut self, hash: u64) -> (r: Option<Vec<DockerDiagnostic>>)
        ensures
            final(self).entries() == old(self).entries(),
            final(self).capacity() == old(self).capacity(),
            final(self).recency() == if old(self).entries().contains_key(hash) {
                touched(old(self).recency(), hash)
            } else {
                old(self).recency()
            },
            old(self).wf() ==> final(self).wf(),
            match cached_diags(old(self).entries(), hash) {
                Some(d) => {
                    &&& r matches Some(v) && diags_view(v@) == d
                    &&& final(self).counters() == (DockerCacheMetrics { hits: sat_inc(old(self).counters().hits), ..old(self).counters() })
                },
                None => {
                    &&& r is None
                    &&& final(self).counters() == (DockerCacheMetrics { misses: sat_inc(old(self).counters().misses), ..old(self).counters() })
                },
            },
    {
        let ghost before = self.recency@;
        match self.entries.get(&hash) {
            Some(entry) => {
                let copy = duplicate_diags(&entry.diagnostics);
                self.hits = self.hits.saturating_add(1);
                touch(&mut self.recency, hash);
                proof {
                    if old(self).wf() {
                        assert(self.entries@.contains_key(hash));
                        assert(before.contains(hash));
                        lemma_touched(before, hash);
                        assert forall|h: u64| self.entries@.contains_key(h) <==> self.recency@.contains(h) by {
                            assert(self.recency@.contains(h) <==> (before.contains(h) || h == hash));
                        }
                        assert(self.wf());
                    }
                }
                Some(copy)
            },
            None => {
                self.misses = self.misses.saturating_add(1);
                None
            },
        }
    }

    /// Caches diagnostics for a hash, replacing the entry for it and making it the
    /// most recently used. When the hash is new and the cache holds its capacity,
    /// the least recently used entry leaves first.
    pub fn insert(&mut self, hash: u64, diagnostics: Vec<DockerDiagnostic>)
        ensures
            final(self).capacity() == old(self).capacity(),
            final(self).counters().hits == old(self).counters().hits,
            final(self).counters().misses == old(self).counters().misses,
            ({
                let ev = evicts(*old(self), hash);
                let es = if ev { old(self).entries().remove(old(self).recency()[0]) } else { old(self).entries() };
                let rs = if ev { old(self).recency().drop_first() } else { old(self).recency() };
                &&& final(self).entries() == es.insert(hash, DockerCacheEntry { content_hash: hash, diagnostics, timestamp: 0 })
                &&& final(self).recency() == touched(rs, hash)
            }),
            cached_diags(final(self).entries(), hash) == Some(diags_view(diagnostics@)),
            forall|h: u64|
                h != hash && !(evicts(*old(self), hash) && h == old(self).recency()[0]) ==> cached_diags(
                    final(self).entries(),
                    h,
                ) == cached_diags(old(self).entries(), h),
            old(self).wf() ==> final(self).wf(),
            old(self).wf() ==> final(self).entries().len() == if old(self).entries().contains_key(hash)
                || evicts(*old(self), hash) {
                old(self).entries().len()
            } else {
                old(self).entries().len() + 1
            },
            old(self).wf() && old(self).capacity() >= 1 && old(self).entries().len() <= old(self).capacity()
                ==> final(self).entries().len() <= final(self).capacity(),
    {
        let ghost e0 = self.entries@;
        let ghost r0 = self.recency@;
        let present = self.entries.contains_key(&hash);
        if !present && self.entries.len() >= self.max_capacity && self.recency.len() > 0 {
            let victim = self.recency.remove(0);
            assert(self.recency@ =~= r0.drop_first());
            self.entries.remove(&victim);
            proof {
                if old(self).wf() {
                    assert(r0.contains(victim)) by {
                        assert(r0[0] == victim);
                    }
                    assert forall|h: u64| self.entries@.contains_key(h) <==> self.recency@.contains(h) by {
                        if self.recency@.contains(h) {
                            let i = choose|i: int| 0 <= i < self.recency@.len() && self.recency@[i] == h;
                            assert(r0[i + 1] == h);
                            assert(r0.contains(h));
                            assert(h != victim);
                        }
                        if self.entries@.contains_key(h) {
                            assert(r0.contains(h));
                            let i = choose|i: int| 0 <= i < r0.len() && r0[i] == h;
                            assert(i != 0);
                            assert(self.recency@[i - 1] == h);
                        }
                    }
                    assert(self.recency@.no_duplicates()) by {
                        assert forall|i: int, j: int|
                            0 <= i < self.recency@.len() && 0 <= j < self.recency@.len() && i != j implies self.recency@[i]
                            != self.recency@[j] by {
                            assert(self.recency@[i] == r0[i + 1] && self.recency@[j] == r0[j + 1]);
                        }
                    }
                    assert(e0.dom().finite());
                    assert(e0.dom().remove(victim) =~= self.entries@.dom());
                    assert(e0.dom().contains(victim));
                    assert(self.entries@.len() == e0.len() - 1);
                    assert(self.recency@.len() == r0.len() - 1);
                }
            }
        }
        let ghost e1 = self.entries@;
        let ghost r1 = self.recency@;
        let entry = DockerCacheEntry { content_hash: hash, diagnostics, timestamp: 0 };
        self.entries.insert(hash, entry);
        touch(&mut self.recency, hash);
        proof {
            if old(self).wf() {
                assert(r1.no_duplicates());
                assert(forall|h: u64| e1.contains_key(h) <==> r1.contains(h));
                assert(r1.len() == e1.len());
                lemma_touched(r1, hash);
                assert(e1.dom().finite());
                if e1.contains_key(hash) {
                    assert(e1.insert(hash, entry).dom() =~= e1.dom());
                } else {
                    assert(e1.insert(hash, entry).dom() =~= e1.dom().insert(hash));
                }
                assert(self.recency@.len() == self.entries@.len());
                assert forall|h: u64| self.entries@.contains_key(h) <==> self.recency@.contains(h) by {
                    assert(self.recency@.contains(h) <==> (r1.contains(h) || h == hash));
                    assert(self.entries@.contains_key(h) <==> (e1.contains_key(h) || h == hash));
                }
                assert(self.wf());
            }
        }
    }

    /// The counters and the number of entries.
    pub fn metrics(&self) -> (r: DockerCacheMetrics)
        ensures
            r == self.counters(),
            r.entries_count == self.entries().len(),
    {
        DockerCacheMetrics { hits: self.hits, misses: self.misses, entries_count: self.entries.len() }
    }

    /// Removes every entry.
    pub fn clear(&mut self)
        ensures
            final(self).wf(),
            final(self).entries() == Map::<u64, DockerCacheEntry>::empty(),
            final(self).capacity() == old(self).capacity(),
            final(self).counters().hits == old(self).counters().hits,
            final(self).counters().misses == old(self).counters().misses,
    {
        self.entries.clear();
        self.recency.clear();
        assert(self.entries@.dom() =~= Set::<u64>::empty());
    }
}

/// An insertion of `hash` evicts the least recently used entry: the hash is new,
/// the cache holds its capacity and some entry is recorded.
pub open spec fn evicts(c: DockerCache, hash: u64) -> bool {
    !c.entries().contains_key(hash) && c.entries().len() >= c.capacity() && c.recency().len() > 0
}

} // verus!
