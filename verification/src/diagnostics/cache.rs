//! Cache of validation results per document, with oldest-first eviction and
//! dirty-region filtering.

use vstd::prelude::*;
use crate::diagnostics::diagnostic::{Diagnostic, diagnostic_same};
use crate::diagnostics::range::{DiagnosticRange, range_contains, ranges_intersect};
use crate::text::str_eq;

verus! {

/// The diagnostics cached for one snapshot of a document.
#[derive(Debug, Clone)]
pub struct DiagnosticCacheEntry {
    /// Hash of the source document content.
    pub source_hash: u64,
    /// Cached diagnostic items.
    pub diagnostics: Vec<Diagnostic>,
    /// Sequence number of the store that created this entry: later stores have
    /// larger numbers (it stops growing at the largest `u64`).
    pub created_at: u64,
}

/// The index of the entry stored under `id`, searching from the end.
pub open spec fn cache_index(es: Seq<(String, DiagnosticCacheEntry)>, id: Seq<char>) -> Option<nat>
    decreases es.len(),
{
    if es.len() == 0 {
        None
    } else if es.last().0@ == id {
        Some((es.len() - 1) as nat)
    } else {
        cache_index(es.drop_last(), id)
    }
}

/// No two entries share a document identifier.
pub open spec fn keys_unique(es: Seq<(String, DiagnosticCacheEntry)>) -> bool {
    forall|i: int, j: int| 0 <= i < j < es.len() ==> es[i].0@ != es[j].0@
}

/// A diagnostic outside every dirty region: no dirty region overlaps its range or
/// holds its start.
pub open spec fn outside_dirty(dirty: Seq<DiagnosticRange>, d: Diagnostic) -> bool {
    forall|k: int|
        0 <= k < dirty.len() ==> !ranges_intersect(#[trigger] dirty[k], d.range) && !range_contains(
            dirty[k],
            d.range.start,
        )
}

/// The diagnostics outside every dirty region, in order.
pub open spec fn clean_diagnostics(ds: Seq<Diagnostic>, dirty: Seq<DiagnosticRange>) -> Seq<Diagnostic>
    decreases ds.len(),
{
    if ds.len() == 0 {
        Seq::empty()
    } else {
        let prev = clean_diagnostics(ds.drop_last(), dirty);
        if outside_dirty(dirty, ds.last()) {
            prev.push(ds.last())
        } else {
            prev
        }
    }
}

/// The entries once `id` is stored: when the cache is full and `id` is new, the
/// oldest entry leaves; an entry stored under `id` leaves; the new entry comes last.
pub open spec fn entries_before_store(es: Seq<(String, DiagnosticCacheEntry)>, max: usize, id: Seq<char>) -> Seq<
    (String, DiagnosticCacheEntry),
> {
    match cache_index(es, id) {
        Some(i) => es.remove(i as int),
        None => if es.len() >= max && es.len() > 0 {
            es.remove(0)
        } else {
            es
        },
    }
}

/// In-memory cache of validation results.
pub struct DiagnosticCache {
    entries: Vec<(String, DiagnosticCacheEntry)>,
    max_entries: usize,
    next_stamp: u64,
}

impl Default for DiagnosticCache {
    fn default() -> (r: Self)
        ensures
            r.wf(),
            r.entries().len() == 0,
            r.max_entries() == 100,
    {
        Self::new(100)
    }
}

impl DiagnosticCache {
    /// The cached entries, oldest first.
    pub closed spec fn entries(&self) -> Seq<(String, DiagnosticCacheEntry)> {
        self.entries@
    }

    /// The capacity.
    pub closed spec fn max_entries(&self) -> usize {
        self.max_entries
    }

    /// Document identifiers are unique.
    pub closed spec fn wf(&self) -> bool {
        keys_unique(self.entries@)
    }

    /// Creates an empty cache with the given capacity.
    pub fn new(max_entries: usize) -> (r: Self)
        ensures
            r.wf(),
            r.entries().len() == 0,
            r.max_entries() == max_entries,
    {
        DiagnosticCache { entries: Vec::new(), max_entries, next_stamp: 0 }
    }

    fn find(&self, id: &str) -> (r: Option<usize>)
        ensures
            r == (match cache_index(self.entries(), id@) {
                Some(i) => Some(i as usize),
                None => None::<usize>,
            }),
            r matches Some(i) ==> i < self.entries().len() && self.entries()[i as int].0@ == id@
                && cache_index(self.entries(), id@) == Some(i as nat),
    {
        let mut i = self.entries.len();
        assert(self.entries@.take(i as int) =~= self.entries@);
        while i > 0
            invariant
                i <= self.entries.len(),
                cache_index(self.entries@, id@) == cache_index(self.entries@.take(i as int), id@),
            decreases i,
        {
            assert(self.entries@.take(i as int).drop_last() =~= self.entries@.take(i - 1));
            if str_eq(self.entries[i - 1].0.as_str(), id) {
                return Some(i - 1);
            }
            i = i - 1;
        }
        None
    }

    /// The diagnostics cached for the document when they were made from a source
    /// with the same hash.
    pub fn get(&self, document_id: &str, source_hash: u64) -> (r: Option<&[Diagnostic]>)
        ensures
            match cache_index(self.entries(), document_id@) {
                Some(i) => if self.entries()[i as int].1.source_hash == source_hash {
                    r matches Some(s) && s@ == self.entries()[i as int].1.diagnostics@
                } else {
                    r is None
                },
                None => r is None,
            },
    {
        match self.find(document_id) {
            Some(i) => {
                let entry = &self.entries[i].1;
                if entry.source_hash == source_hash {
                    Some(entry.diagnostics.as_slice())
                } else {
                    None
                }
            },
            None => None,
        }
    }

    /// Stores the diagnostics of a document snapshot. When the cache is full and the
    /// document is new, the oldest entry is evicted first.
    pub fn put(&mut self, document_id: &str, source_hash: u64, diagnostics: Vec<Diagnostic>)
        requires
            old(self).wf(),
        ensures
            final(self).wf(),
            final(self).max_entries() == old(self).max_entries(),
            final(self).entries().len() > 0,
            final(self).entries().drop_last() == entries_before_store(
                old(self).entries(),
                old(self).max_entries(),
                document_id@,
            ),
            final(self).entries().last().0@ == document_id@,
            final(self).entries().last().1.source_hash == source_hash,
            final(self).entries().last().1.diagnostics == diagnostics,
            stored(old(self).entries(), old(self).max_entries(), final(self).entries(), document_id@, source_hash, diagnostics@),
    {
        let ghost es = self.entries@;
        match self.find(document_id) {
            Some(i) => {
                self.entries.remove(i);
            },
            None => {
                if self.entries.len() >= self.max_entries && self.entries.len() > 0 {
                    self.entries.remove(0);
                }
            },
        }
        let ghost mid = self.entries@;
        assert(mid == entries_before_store(es, self.max_entries, document_id@));
        assert forall|i: int, j: int| 0 <= i < j < mid.len() implies mid[i].0@ != mid[j].0@ by {
            let m = cache_index(es, document_id@);
            if m is Some {
                let x = m->0 as int;
                let ii = if i < x { i } else { i + 1 };
                let jj = if j < x { j } else { j + 1 };
                assert(mid[i] == es[ii]);
                assert(mid[j] == es[jj]);
            } else if es.len() >= self.max_entries && es.len() > 0 {
                assert(mid[i] == es[i + 1]);
                assert(mid[j] == es[j + 1]);
            }
        }
        proof {
            lemma_absent_after_store(es, self.max_entries, document_id@);
        }
        let stamp = self.next_stamp;
        self.next_stamp = self.next_stamp.saturating_add(1);
        let entry = DiagnosticCacheEntry { source_hash, diagnostics, created_at: stamp };
        self.entries.push((document_id.to_owned(), entry));
        assert(self.entries@.drop_last() =~= mid);
    }

    /// Removes the entry of a document.
    pub fn invalidate(&mut self, document_id: &str)
        requires
            old(self).wf(),
        ensures
            final(self).wf(),
            final(self).max_entries() == old(self).max_entries(),
            final(self).entries() == (match cache_index(old(self).entries(), document_id@) {
                Some(i) => old(self).entries().remove(i as int),
                None => old(self).entries(),
            }),
    {
        match self.find(document_id) {
            Some(i) => {
                let ghost es = self.entries@;
                self.entries.remove(i);
                assert forall|a: int, b: int|
                    0 <= a < b < self.entries@.len() implies self.entries@[a].0@
                    != self.entries@[b].0@ by {
                    let aa = if a < i { a } else { a + 1 };
                    let bb = if b < i { b } else { b + 1 };
                    assert(self.entries@[a] == es[aa]);
                    assert(self.entries@[b] == es[bb]);
                }
            },
            None => {},
        }
    }

    /// Copies of the cached diagnostics of a document that lie outside every dirty
    /// region; `None` when the document has no entry.
    pub fn filter_dirty_diagnostics(&self, document_id: &str, dirty_regions: &[DiagnosticRange]) -> (r:
        Option<Vec<Diagnostic>>)
        ensures
            match cache_index(self.entries(), document_id@) {
                Some(i) => r matches Some(v) && {
                    let want = clean_diagnostics(self.entries()[i as int].1.diagnostics@, dirty_regions@);
                    v@.len() == want.len() && forall|k: int|
                        0 <= k < v@.len() ==> diagnostic_same(#[trigger] v@[k], want[k])
                },
                None => r is None,
            },
    {
        let i = match self.find(document_id) {
            Some(i) => i,
            None => {
                return None;
            },
        };
        let ds = &self.entries[i].1.diagnostics;
        let mut out: Vec<Diagnostic> = Vec::new();
        let mut j: usize = 0;
        while j < ds.len()
            invariant
                j <= ds.len(),
                out@.len() == clean_diagnostics(ds@.take(j as int), dirty_regions@).len(),
                forall|k: int|
                    0 <= k < out@.len() ==> diagnostic_same(
                        #[trigger] out@[k],
                        clean_diagnostics(ds@.take(j as int), dirty_regions@)[k],
                    ),
            decreases ds.len() - j,
        {
            proof {
                assert(ds@.take(j + 1).drop_last() =~= ds@.take(j as int));
            }
            let d = &ds[j];
            if is_outside_dirty(dirty_regions, d) {
                out.push(d.duplicate());
            }
            j = j + 1;
        }
        assert(ds@.take(ds.len() as int) =~= ds@);
        Some(out)
    }

    /// Removes every entry.
    pub fn clear(&mut self)
        ensures
            final(self).wf(),
            final(self).entries().len() == 0,
            final(self).max_entries() == old(self).max_entries(),
    {
        self.entries.clear();
    }

    /// The number of cached entries.
    pub fn len(&self) -> (r: usize)
        ensures
            r == self.entries().len(),
    {
        self.entries.len()
    }

    /// True when no entry is cached.
    pub fn is_empty(&self) -> (r: bool)
        ensures
            r == (self.entries().len() == 0),
    {
        self.entries.len() == 0
    }
}

/// After the removals of a store, no entry is stored under the stored identifier.
proof fn lemma_absent_after_store(es: Seq<(String, DiagnosticCacheEntry)>, max: usize, id: Seq<char>)
    requires
        keys_unique(es),
    ensures
        forall|k: int|
            0 <= k < entries_before_store(es, max, id).len() ==> #[trigger] entries_before_store(
                es,
                max,
                id,
            )[k].0@ != id,
{
    let mid = entries_before_store(es, max, id);
    lemma_cache_index_none(es, id);
    match cache_index(es, id) {
        Some(x) => {
            lemma_cache_index_some(es, id);
            assert forall|k: int| 0 <= k < mid.len() implies #[trigger] mid[k].0@ != id by {
                let kk = if k < x { k } else { k + 1 };
                assert(mid[k] == es[kk]);
                assert(kk != x);
            }
        },
        None => {
            assert forall|k: int| 0 <= k < mid.len() implies #[trigger] mid[k].0@ != id by {
                if es.len() >= max && es.len() > 0 {
                    assert(mid[k] == es[k + 1]);
                }
            }
        },
    }
}

proof fn lemma_cache_index_none(es: Seq<(String, DiagnosticCacheEntry)>, id: Seq<char>)
    ensures
        cache_index(es, id) is None ==> forall|k: int| 0 <= k < es.len() ==> #[trigger] es[k].0@ != id,
    decreases es.len(),
{
    if es.len() > 0 {
        lemma_cache_index_none(es.drop_last(), id);
        if cache_index(es, id) is None {
            assert forall|k: int| 0 <= k < es.len() implies #[trigger] es[k].0@ != id by {
                if k < es.len() - 1 {
                    assert(es[k] == es.drop_last()[k]);
                }
            }
        }
    }
}

proof fn lemma_cache_index_some(es: Seq<(String, DiagnosticCacheEntry)>, id: Seq<char>)
    requires
        keys_unique(es),
        cache_index(es, id) is Some,
    ensures
        ({
            let x = cache_index(es, id)->0 as int;
            &&& 0 <= x < es.len()
            &&& es[x].0@ == id
            &&& forall|k: int| 0 <= k < es.len() && k != x ==> #[trigger] es[k].0@ != id
        }),
    decreases es.len(),
{
    if es.last().0@ != id {
        let d = es.drop_last();
        assert forall|i: int, j: int| 0 <= i < j < d.len() implies d[i].0@ != d[j].0@ by {
            assert(d[i] == es[i]);
            assert(d[j] == es[j]);
        }
        lemma_cache_index_some(d, id);
        let x = cache_index(es, id)->0 as int;
        assert forall|k: int| 0 <= k < es.len() && k != x implies #[trigger] es[k].0@ != id by {
            if k < es.len() - 1 {
                assert(es[k] == d[k]);
            }
        }
    } else {
        let x = es.len() - 1;
        assert forall|k: int| 0 <= k < es.len() && k != x implies #[trigger] es[k].0@ != id by {
            assert(es[k].0@ != es[x].0@);
        }
    }
}

/// True when the diagnostic lies outside every dirty region.
fn is_outside_dirty(dirty: &[DiagnosticRange], d: &Diagnostic) -> (r: bool)
    ensures
        r == outside_dirty(dirty@, *d),
{
    let mut k: usize = 0;
    while k < dirty.len()
        invariant
            k <= dirty.len(),
            forall|m: int|
                0 <= m < k ==> !ranges_intersect(#[trigger] dirty@[m], d.range) && !range_contains(
                    dirty@[m],
                    d.range.start,
                ),
        decreases dirty.len() - k,
    {
        let reg = &dirty[k];
        if reg.intersects(&d.range) || reg.contains_position(d.range.start) {
            return false;
        }
        k = k + 1;
    }
    true
}

/// The diagnostics a lookup of document `id` with source hash `h` finds.
pub open spec fn lookup(es: Seq<(String, DiagnosticCacheEntry)>, id: Seq<char>, h: u64) -> Option<Seq<Diagnostic>> {
    match cache_index(es, id) {
        Some(i) => if es[i as int].1.source_hash == h {
            Some(es[i as int].1.diagnostics@)
        } else {
            None
        },
        None => None,
    }
}

/// `after` holds what storing `ds` for document `id` and hash `h` makes of
/// `before` in a cache of capacity `max` (as `put` states it).
pub open spec fn stored(
    before: Seq<(String, DiagnosticCacheEntry)>,
    max: usize,
    after: Seq<(String, DiagnosticCacheEntry)>,
    id: Seq<char>,
    h: u64,
    ds: Seq<Diagnostic>,
) -> bool {
    &&& after.len() > 0
    &&& after.drop_last() == entries_before_store(before, max, id)
    &&& after.last().0@ == id
    &&& after.last().1.source_hash == h
    &&& after.last().1.diagnostics@ == ds
}

/// With unique identifiers, the entry found for `k` is the one with that identifier.
pub proof fn lemma_cache_index_unique(es: Seq<(String, DiagnosticCacheEntry)>, k: Seq<char>)
    requires
        keys_unique(es),
    ensures
        forall|j: int| 0 <= j < es.len() && es[j].0@ == k ==> cache_index(es, k) == Some(j as nat),
        (forall|j: int| 0 <= j < es.len() ==> es[j].0@ != k) ==> cache_index(es, k) is None,
    decreases es.len(),
{
    if es.len() > 0 {
        let d = es.drop_last();
        assert(keys_unique(d)) by {
            assert forall|i: int, j: int| 0 <= i < j < d.len() implies d[i].0@ != d[j].0@ by {
                assert(d[i] == es[i] && d[j] == es[j]);
            }
        }
        lemma_cache_index_unique(d, k);
        assert forall|j: int| 0 <= j < es.len() && es[j].0@ == k implies cache_index(es, k) == Some(j as nat) by {
            if j < es.len() - 1 {
                assert(es[j] == d[j]);
                assert(es.last().0@ != k);
            }
        }
        if forall|j: int| 0 <= j < es.len() ==> es[j].0@ != k {
            assert(es.last().0@ != k);
            assert forall|j: int| 0 <= j < d.len() implies d[j].0@ != k by {
                assert(d[j] == es[j]);
            }
        }
    }
}

/// A lookup right after a store finds what was stored, for the stored hash only.
pub proof fn lemma_get_after_put(
    before: Seq<(String, DiagnosticCacheEntry)>,
    max: usize,
    after: Seq<(String, DiagnosticCacheEntry)>,
    id: Seq<char>,
    h: u64,
    ds: Seq<Diagnostic>,
)
    requires
        stored(before, max, after, id, h, ds),
    ensures
        lookup(after, id, h) == Some(ds),
        forall|h2: u64| h2 != h ==> lookup(after, id, h2) is None,
{
}

/// A store keeps what every other document's lookup finds, unless the cache was
/// full and the stored document new (then the oldest entry leaves).
pub proof fn lemma_put_keeps_others(
    before: Seq<(String, DiagnosticCacheEntry)>,
    max: usize,
    after: Seq<(String, DiagnosticCacheEntry)>,
    id: Seq<char>,
    h: u64,
    ds: Seq<Diagnostic>,
    other: Seq<char>,
    h2: u64,
)
    requires
        keys_unique(before),
        stored(before, max, after, id, h, ds),
        other != id,
        cache_index(before, id) is Some || before.len() < max,
    ensures
        lookup(after, other, h2) == lookup(before, other, h2),
{
    let mid = after.drop_last();
    lemma_cache_index_unique(before, other);
    lemma_cache_index_unique(before, id);
    assert(cache_index(after, other) == cache_index(mid, other));
    match cache_index(before, id) {
        Some(i) => {
            let i = i as int;
            assert(before[i].0@ == id) by {
                lemma_cache_index_found(before, id);
            }
            assert(mid =~= before.remove(i));
            assert(keys_unique(mid)) by {
                assert forall|a: int, b: int| 0 <= a < b < mid.len() implies mid[a].0@ != mid[b].0@ by {
                    let a2 = if a < i { a } else { a + 1 };
                    let b2 = if b < i { b } else { b + 1 };
                    assert(mid[a] == before[a2] && mid[b] == before[b2]);
                }
            }
            lemma_cache_index_unique(mid, other);
            if exists|j: int| 0 <= j < before.len() && before[j].0@ == other {
                let j = choose|j: int| 0 <= j < before.len() && before[j].0@ == other;
                assert(j != i);
                let j2 = if j < i { j } else { j - 1 };
                assert(mid[j2] == before[j]);
                assert(cache_index(mid, other) == Some(j2 as nat));
            } else {
                assert forall|j: int| 0 <= j < mid.len() implies mid[j].0@ != other by {
                    let j2 = if j < i { j } else { j + 1 };
                    assert(mid[j] == before[j2]);
                }
            }
        },
        None => {
            assert(mid == before);
        },
    }
}

/// A store of a new document into a full cache makes the oldest document's
/// lookups find nothing.
pub proof fn lemma_put_evicts_oldest(
    before: Seq<(String, DiagnosticCacheEntry)>,
    max: usize,
    after: Seq<(String, DiagnosticCacheEntry)>,
    id: Seq<char>,
    h: u64,
    ds: Seq<Diagnostic>,
    h2: u64,
)
    requires
        keys_unique(before),
        stored(before, max, after, id, h, ds),
        cache_index(before, id) is None,
        before.len() >= max,
        before.len() > 0,
    ensures
        lookup(after, before[0].0@, h2) is None,
{
    let mid = after.drop_last();
    let old_id = before[0].0@;
    lemma_cache_index_unique(before, id);
    assert(old_id != id) by {
        if old_id == id {
            assert(cache_index(before, id) == Some(0nat));
        }
    }
    assert(mid =~= before.remove(0));
    assert forall|j: int| 0 <= j < mid.len() implies mid[j].0@ != old_id by {
        assert(mid[j] == before[j + 1]);
    }
    assert(keys_unique(mid)) by {
        assert forall|a: int, b: int| 0 <= a < b < mid.len() implies mid[a].0@ != mid[b].0@ by {
            assert(mid[a] == before[a + 1] && mid[b] == before[b + 1]);
        }
    }
    lemma_cache_index_unique(mid, old_id);
    assert(cache_index(after, old_id) == cache_index(mid, old_id));
}

proof fn lemma_cache_index_found(es: Seq<(String, DiagnosticCacheEntry)>, k: Seq<char>)
    ensures
        cache_index(es, k) matches Some(i) ==> i < es.len() && es[i as int].0@ == k,
    decreases es.len(),
{
    if es.len() > 0 {
        lemma_cache_index_found(es.drop_last(), k);
    }
}

/// Removing an entry keeps the identifiers unique, makes the removed document's
/// lookups find nothing and keeps every other document's lookups.
proof fn lemma_remove_entry(es: Seq<(String, DiagnosticCacheEntry)>, i: int)
    requires
        keys_unique(es),
        0 <= i < es.len(),
    ensures
        keys_unique(es.remove(i)),
        forall|h: u64| #[trigger] lookup(es.remove(i), es[i].0@, h) is None,
        forall|k: Seq<char>, h: u64| k != es[i].0@ ==> #[trigger] lookup(es.remove(i), k, h) == lookup(es, k, h),
{
    let r = es.remove(i);
    assert forall|a: int, b: int| 0 <= a < b < r.len() implies r[a].0@ != r[b].0@ by {
        let aa = if a < i { a } else { a + 1 };
        let bb = if b < i { b } else { b + 1 };
        assert(r[a] == es[aa] && r[b] == es[bb]);
    }
    let key = es[i].0@;
    lemma_cache_index_unique(r, key);
    assert forall|j: int| 0 <= j < r.len() implies r[j].0@ != key by {
        let jj = if j < i { j } else { j + 1 };
        assert(r[j] == es[jj]);
    }
    assert forall|k: Seq<char>, h: u64| k != key implies #[trigger] lookup(r, k, h) == lookup(es, k, h) by {
        lemma_cache_index_unique(es, k);
        lemma_cache_index_unique(r, k);
        if exists|j: int| 0 <= j < es.len() && es[j].0@ == k {
            let j = choose|j: int| 0 <= j < es.len() && es[j].0@ == k;
            assert(j != i);
            let j2 = if j < i { j } else { j - 1 };
            assert(r[j2] == es[j]);
        } else {
            assert forall|j: int| 0 <= j < r.len() implies r[j].0@ != k by {
                let jj = if j < i { j } else { j + 1 };
                assert(r[j] == es[jj]);
            }
        }
    }
}

/// An operation on a cache, on values.
pub enum CacheOp {
    Put { id: Seq<char>, hash: u64, diagnostics: Seq<Diagnostic> },
    Invalidate { id: Seq<char> },
    Clear,
}

/// `after` is what the operation makes of `before` in a cache of capacity `max`,
/// as `put`, `invalidate` and `clear` state it.
pub open spec fn cache_step(
    before: Seq<(String, DiagnosticCacheEntry)>,
    max: usize,
    after: Seq<(String, DiagnosticCacheEntry)>,
    op: CacheOp,
) -> bool {
    match op {
        CacheOp::Put { id, hash, diagnostics } => stored(before, max, after, id, hash, diagnostics),
        CacheOp::Invalidate { id } => after == (match cache_index(before, id) {
            Some(i) => before.remove(i as int),
            None => before,
        }),
        CacheOp::Clear => after.len() == 0,
    }
}

/// The operation stores a new document into a full cache, so the oldest entry leaves.
pub open spec fn step_evicts(before: Seq<(String, DiagnosticCacheEntry)>, max: usize, op: CacheOp) -> bool {
    match op {
        CacheOp::Put { id, .. } => cache_index(before, id) is None && before.len() >= max && before.len() > 0,
        _ => false,
    }
}

/// What a lookup of document `id` with hash `h` should find after the operations:
/// the diagnostics of the last store of `id` when it was made with `h`, and
/// nothing when that store was made with another hash, when `id` was invalidated
/// or the cache cleared since, or when `id` was never stored.
pub open spec fn last_answer(ops: Seq<CacheOp>, id: Seq<char>, h: u64) -> Option<Seq<Diagnostic>>
    decreases ops.len(),
{
    if ops.len() == 0 {
        None
    } else {
        match ops.last() {
            CacheOp::Put { id: k, hash, diagnostics } => if k == id {
                if hash == h { Some(diagnostics) } else { None }
            } else {
                last_answer(ops.drop_last(), id, h)
            },
            CacheOp::Invalidate { id: k } => if k == id { None } else { last_answer(ops.drop_last(), id, h) },
            CacheOp::Clear => None,
        }
    }
}

/// One operation: identifiers stay unique; the operated document's lookups are
/// the operation's answer; other documents' lookups stay, except that the entry
/// an eviction removed finds nothing.
proof fn lemma_cache_step(
    before: Seq<(String, DiagnosticCacheEntry)>,
    max: usize,
    after: Seq<(String, DiagnosticCacheEntry)>,
    op: CacheOp,
)
    requires
        keys_unique(before),
        cache_step(before, max, after, op),
    ensures
        keys_unique(after),
        forall|id: Seq<char>, h: u64| #[trigger] lookup(after, id, h) is Some ==> lookup(after, id, h) == (match op {
            CacheOp::Put { id: k, hash, diagnostics } => if k == id {
                if hash == h { Some(diagnostics) } else { None }
            } else {
                lookup(before, id, h)
            },
            CacheOp::Invalidate { id: k } => if k == id { None } else { lookup(before, id, h) },
            CacheOp::Clear => None,
        }),
        !step_evicts(before, max, op) ==> forall|id: Seq<char>, h: u64| #[trigger] lookup(after, id, h) == (match op {
            CacheOp::Put { id: k, hash, diagnostics } => if k == id {
                if hash == h { Some(diagnostics) } else { None }
            } else {
                lookup(before, id, h)
            },
            CacheOp::Invalidate { id: k } => if k == id { None } else { lookup(before, id, h) },
            CacheOp::Clear => None,
        }),
{
    match op {
        CacheOp::Put { id: k, hash, diagnostics } => {
            let mid = after.drop_last();
            lemma_absent_after_store(before, max, k);
            match cache_index(before, k) {
                Some(i) => {
                    lemma_cache_index_found(before, k);
                    lemma_remove_entry(before, i as int);
                },
                None => {
                    if before.len() >= max && before.len() > 0 {
                        lemma_remove_entry(before, 0);
                    }
                },
            }
            assert(keys_unique(mid));
            assert(keys_unique(after)) by {
                assert forall|a: int, b: int| 0 <= a < b < after.len() implies after[a].0@ != after[b].0@ by {
                    if b == after.len() - 1 {
                        assert(after[a] == mid[a]);
                    } else {
                        assert(after[a] == mid[a] && after[b] == mid[b]);
                    }
                }
            }
            lemma_get_after_put(before, max, after, k, hash, diagnostics);
            assert forall|id: Seq<char>, h: u64| id != k implies #[trigger] lookup(after, id, h) == lookup(mid, id, h) by {
                assert(after.last().0@ != id);
                assert(cache_index(after, id) == cache_index(mid, id));
                lemma_cache_index_found(mid, id);
                if let Some(j) = cache_index(mid, id) {
                    assert(after[j as int] == mid[j as int]);
                }
            }
        },
        CacheOp::Invalidate { id: k } => {
            match cache_index(before, k) {
                Some(i) => {
                    lemma_cache_index_found(before, k);
                    lemma_remove_entry(before, i as int);
                },
                None => {},
            }
        },
        CacheOp::Clear => {},
    }
}

/// What a cache's lookups find after a run of `put`, `invalidate` and `clear` from
/// an empty cache: whenever a lookup of a document finds diagnostics, they are
/// those of the last store of that document, made with the hash looked up, with
/// no invalidation or clearing of it since; and when no store evicted an entry,
/// every lookup finds exactly that (nothing when there is no such store).
pub proof fn lemma_cache_answers_last_put(
    states: Seq<Seq<(String, DiagnosticCacheEntry)>>,
    max: usize,
    ops: Seq<CacheOp>,
    id: Seq<char>,
    h: u64,
)
    requires
        states.len() == ops.len() + 1,
        states[0].len() == 0,
        forall|i: int| 0 <= i < ops.len() ==> cache_step(states[i], max, states[i + 1], #[trigger] ops[i]),
    ensures
        keys_unique(states.last()),
        lookup(states.last(), id, h) is Some ==> lookup(states.last(), id, h) == last_answer(ops, id, h),
        (forall|i: int| 0 <= i < ops.len() ==> !step_evicts(states[i], max, #[trigger] ops[i]))
            ==> lookup(states.last(), id, h) == last_answer(ops, id, h),
    decreases ops.len(),
{
    if ops.len() == 0 {
        assert(lookup(states[0], id, h) is None);
    } else {
        let n = ops.len() - 1;
        let s2 = states.drop_last();
        let o2 = ops.drop_last();
        assert forall|i: int| 0 <= i < o2.len() implies cache_step(s2[i], max, s2[i + 1], #[trigger] o2[i]) by {
            assert(s2[i] == states[i] && s2[i + 1] == states[i + 1] && o2[i] == ops[i]);
            assert(cache_step(states[i], max, states[i + 1], ops[i]));
        }
        lemma_cache_answers_last_put(s2, max, o2, id, h);
        assert(s2.last() == states[n]);
        assert(cache_step(states[n], max, states[n + 1], ops[n]));
        lemma_cache_step(states[n], max, states[n + 1], ops[n]);
        assert(states.last() == states[n + 1]);
        assert(ops.last() == ops[n]);
        if forall|i: int| 0 <= i < ops.len() ==> !step_evicts(states[i], max, #[trigger] ops[i]) {
            assert forall|i: int| 0 <= i < o2.len() implies !step_evicts(s2[i], max, #[trigger] o2[i]) by {
                assert(s2[i] == states[i] && o2[i] == ops[i]);
                assert(!step_evicts(states[i], max, ops[i]));
            }
            assert(!step_evicts(states[n], max, ops[n]));
        }
    }
}

} // verus!