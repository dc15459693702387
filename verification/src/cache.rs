//! A generational cache of shaped paragraphs.
//!
//! An entry lives from the first request for its fingerprint until the first
//! trim that finds it untouched since the trim before. Nothing else bounds
//! the cache.

use crate::key::fingerprint_of;
use crate::key::Key;
use crate::store::entries_get;
use crate::store::entries_insert;
use crate::store::entries_retain;
use crate::store::marks_contains;
use crate::store::marks_insert;
use glyphon::Buffer;
use rustc_hash::FxHashMap;
use rustc_hash::FxHashSet;
use vstd::prelude::*;

verus! {

/// What a [`Cache`] holds: the paragraph under each fingerprint, and the
/// fingerprints touched since the last trim.
#[verifier::ext_equal]
pub struct CacheView {
    pub entries: Map<u64, Buffer>,
    pub recently_used: Set<u64>,
}

impl CacheView {
    /// The cache that holds nothing.
    pub open spec fn empty() -> CacheView {
        CacheView { entries: Map::empty(), recently_used: Set::empty() }
    }

    /// Every fingerprint touched since the last trim has an entry.
    pub open spec fn wf(self) -> bool {
        self.recently_used.subset_of(self.entries.dom())
    }

    /// The cache after a request for `hash`, where `fresh` is the paragraph
    /// that shaping would give. An entry that is there is kept as it is, and
    /// `fresh` plays no part; the fingerprint counts as touched either way.
    pub open spec fn allocate(self, hash: u64, fresh: Buffer) -> CacheView {
        CacheView {
            entries: if self.entries.contains_key(hash) {
                self.entries
            } else {
                self.entries.insert(hash, fresh)
            },
            recently_used: self.recently_used.insert(hash),
        }
    }

    /// Whether `after` can be this cache after a request for each of
    /// `hashes`: each of them has an entry and counts as touched, the entries
    /// that were there are as they were, and nothing else has changed.
    pub open spec fn allocated(self, hashes: Set<u64>, after: CacheView) -> bool {
        &&& after.recently_used == self.recently_used.union(hashes)
        &&& after.entries.dom() == self.entries.dom().union(hashes)
        &&& forall|hash: u64| #[trigger]
            self.entries.contains_key(hash) ==> after.entries[hash] == self.entries[hash]
    }

    /// The cache after a trim: the touched entries stay, and nothing counts
    /// as touched any more.
    pub open spec fn trim(self) -> CacheView {
        CacheView {
            entries: self.entries.restrict(self.recently_used),
            recently_used: Set::empty(),
        }
    }
}

/// Shaped paragraphs by fingerprint, with the marks of a generational sweep.
pub struct Cache {
    entries: FxHashMap<u64, Buffer>,
    recently_used: FxHashSet<u64>,
}

impl View for Cache {
    type V = CacheView;

    closed spec fn view(&self) -> CacheView {
        CacheView { entries: self.entries@, recently_used: self.recently_used@ }
    }
}

impl Cache {
    /// A cache that holds nothing.
    pub fn new() -> (cache: Cache)
        ensures
            cache@ == CacheView::empty(),
    {
        Cache { entries: FxHashMap::default(), recently_used: FxHashSet::default() }
    }

    /// The paragraph under `hash`, if there is one. Does not touch the entry.
    pub fn get(&self, hash: &u64) -> (found: Option<&Buffer>)
        ensures
            match found {
                Some(buffer) => self@.entries.contains_key(*hash) && *buffer == self@.entries[*hash],
                None => !self@.entries.contains_key(*hash),
            },
    {
        entries_get(&self.entries, *hash)
    }

    /// Whether `hash` was touched since the last trim.
    pub fn is_recently_used(&self, hash: &u64) -> (touched: bool)
        ensures
            touched == self@.recently_used.contains(*hash),
    {
        marks_contains(&self.recently_used, *hash)
    }

    /// The paragraph under `hash`, shaped by `shape` if there is none yet.
    ///
    /// `shape` is called only where the cache has no entry under `hash`, and
    /// then once. The fingerprint counts as touched afterwards.
    pub fn allocate_hashed<F: FnOnce() -> Buffer>(&mut self, hash: u64, shape: F) -> (buffer:
        &Buffer)
        requires
            shape.requires(()),
        ensures
            final(self)@ == old(self)@.allocate(hash, *buffer),
            *buffer == final(self)@.entries[hash],
            !old(self)@.entries.contains_key(hash) ==> shape.ensures((), *buffer),
            old(self)@.wf() ==> final(self)@.wf(),
    {
        if entries_get(&self.entries, hash).is_none() {
            let fresh = shape();
            let _ = entries_insert(&mut self.entries, hash, fresh);
        }
        let _ = marks_insert(&mut self.recently_used, hash);
        match entries_get(&self.entries, hash) {
            Some(buffer) => buffer,
            None => vstd::pervasive::unreached(),
        }
    }

    /// The paragraph for `key`, shaped by `shape` if the cache has none under
    /// the fingerprint of `key`; the fingerprint comes back with it.
    pub fn allocate<F: FnOnce() -> Buffer>(&mut self, key: &Key<'_>, shape: F) -> (allocation: (
        u64,
        &Buffer,
    ))
        requires
            shape.requires(()),
        ensures
            allocation.0 == fingerprint_of(key@),
            final(self)@ == old(self)@.allocate(allocation.0, *allocation.1),
            *allocation.1 == final(self)@.entries[allocation.0],
            !old(self)@.entries.contains_key(allocation.0) ==> shape.ensures((), *allocation.1),
            old(self)@.wf() ==> final(self)@.wf(),
    {
        let hash = key.fingerprint();
        let buffer = self.allocate_hashed(hash, shape);
        (hash, buffer)
    }

    /// Drops every entry that was not touched since the last trim, and
    /// forgets which were.
    pub fn trim(&mut self)
        ensures
            final(self)@ == old(self)@.trim(),
            final(self)@.wf(),
    {
        entries_retain(&mut self.entries, &self.recently_used);
        self.recently_used.clear();
    }
}

/// The empty cache is well formed, and requests and trims keep a cache so.
pub proof fn lemma_wf_is_kept(cache: CacheView, hash: u64, fresh: Buffer)
    requires
        cache.wf(),
    ensures
        CacheView::empty().wf(),
        cache.allocate(hash, fresh).wf(),
        cache.trim().wf(),
{
}

/// A request is a request for one fingerprint in the sense of
/// [`CacheView::allocated`].
pub proof fn lemma_allocate_is_allocated(cache: CacheView, hash: u64, fresh: Buffer)
    ensures
        cache.allocated(set![hash], cache.allocate(hash, fresh)),
{
    let after = cache.allocate(hash, fresh);
    assert(after.recently_used =~= cache.recently_used.union(set![hash]));
    assert(after.entries.dom() =~= cache.entries.dom().union(set![hash]));
}

/// Between trims a paragraph is shaped at most once: a second request for a
/// fingerprint finds the paragraph of the first, and what shaping would give
/// the second time plays no part.
pub proof fn lemma_second_request_reuses(cache: CacheView, hash: u64, first: Buffer, second: Buffer)
    ensures
        cache.allocate(hash, first).entries.contains_key(hash),
        cache.allocate(hash, first).allocate(hash, second) == cache.allocate(hash, first),
{
    let once = cache.allocate(hash, first);
    assert(once.allocate(hash, second) =~= once);
}

/// A trim keeps what was touched since the trim before and drops the rest,
/// and nothing counts as touched afterwards.
pub proof fn lemma_trim_is_generational(cache: CacheView, touched: u64, untouched: u64)
    requires
        cache.wf(),
        cache.recently_used.contains(touched),
        !cache.recently_used.contains(untouched),
    ensures
        cache.trim().entries.contains_key(touched),
        cache.trim().entries[touched] == cache.entries[touched],
        !cache.trim().entries.contains_key(untouched),
        cache.trim().recently_used == Set::<u64>::empty(),
{
}

/// A cache that sees no request between two trims is empty after the second.
pub proof fn lemma_idle_period_empties(cache: CacheView)
    ensures
        cache.trim().trim() == CacheView::empty(),
{
    assert(cache.trim().trim().entries =~= Map::<u64, Buffer>::empty());
}

/// An entry that is requested in every period outlives every trim, with
/// the paragraph it was first given.
pub proof fn lemma_touched_entry_persists(cache: CacheView, hash: u64, fresh: Buffer)
    requires
        cache.entries.contains_key(hash),
    ensures
        cache.allocate(hash, fresh).trim().entries.contains_key(hash),
        cache.allocate(hash, fresh).trim().entries[hash] == cache.entries[hash],
{
}

/// Requests under different fingerprints have entries of their own: the
/// second request leaves the entry of the first as it is.
pub proof fn lemma_distinct_fingerprints_are_independent(
    cache: CacheView,
    a: u64,
    for_a: Buffer,
    b: u64,
    for_b: Buffer,
)
    requires
        a != b,
    ensures
        cache.allocate(a, for_a).allocate(b, for_b).entries.contains_key(a),
        cache.allocate(a, for_a).allocate(b, for_b).entries.contains_key(b),
        cache.allocate(a, for_a).allocate(b, for_b).entries[a] == cache.allocate(a, for_a).entries[a],
        !cache.entries.contains_key(b) ==> cache.allocate(a, for_a).allocate(b, for_b).entries[b]
            == for_b,
{
}

} // verus!
