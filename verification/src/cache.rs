//! The buffer cache: a process-wide keyed store from an opaque resource key
//! to a content blob and its MIME type. Insert or overwrite and read, no
//! eviction; an entry becomes visible atomically once `add_entry` returns.

use vstd::prelude::*;

use crate::bytes::bytes_eq;
use crate::kv::{kv_view, lemma_kv_view_absent, lemma_kv_view_found, lemma_kv_view_push};

verus! {

/// One cached blob: its MIME type and its raw bytes. Immutable once
/// inserted; a later insert under the same key replaces it whole.
#[derive(Debug)]
pub struct CacheEntry {
    pub mime: Vec<u8>,
    pub bytes: Vec<u8>,
}

/// The mathematical value of a cache entry.
pub ghost struct CacheEntryView {
    pub mime: Seq<u8>,
    pub bytes: Seq<u8>,
}

impl View for CacheEntry {
    type V = CacheEntryView;

    open spec fn view(&self) -> CacheEntryView {
        CacheEntryView { mime: self.mime@, bytes: self.bytes@ }
    }
}

/// The buffer cache. Its abstract value is a map from resource keys to
/// entries; the latest insert under a key is the one a reader sees.
pub struct BufferCache {
    entries: Vec<(Vec<u8>, CacheEntry)>,
}

impl View for BufferCache {
    type V = Map<Seq<u8>, CacheEntryView>;

    closed spec fn view(&self) -> Map<Seq<u8>, CacheEntryView> {
        kv_view(self.entries@)
    }
}

impl BufferCache {
    /// An empty cache.
    pub fn new() -> (cache: Self)
        ensures
            cache@ == Map::<Seq<u8>, CacheEntryView>::empty(),
    {
        BufferCache { entries: Vec::new() }
    }

    /// Look a key up. Never blocks on anything: a pure in-memory search.
    /// Absence is signalled by returning no value.
    pub fn get_entry(&self, key: &[u8]) -> (r: Option<&CacheEntry>)
        ensures
            match r {
                Some(entry) => self@.contains_key(key@) && entry@ == self@[key@],
                None => !self@.contains_key(key@),
            },
    {
        let n = self.entries.len();
        let mut i: usize = n;
        while i > 0
            invariant
                n == self.entries@.len(),
                i <= n,
                forall|j: int| i <= j < n ==> self.entries@[j].0@ != key@,
            decreases i,
        {
            i -= 1;
            if bytes_eq(self.entries[i].0.as_slice(), key) {
                proof {
                    lemma_kv_view_found(self.entries@, i as int);
                }
                return Some(&self.entries[i].1);
            }
        }
        proof {
            lemma_kv_view_absent(self.entries@, key@);
        }
        None
    }

    /// Insert or overwrite, unconditionally: last writer wins.
    pub fn add_entry(&mut self, key: Vec<u8>, mime: Vec<u8>, bytes: Vec<u8>)
        ensures
            final(self)@ == old(self)@.insert(key@, (CacheEntryView { mime: mime@, bytes: bytes@ })),
    {
        let ghost old_entries = self.entries@;
        let entry = CacheEntry { mime, bytes };
        proof {
            lemma_kv_view_push(old_entries, key, entry);
        }
        self.entries.push((key, entry));
    }
}

/// Last write wins: storing twice under one key leaves the second entry as
/// the one a lookup returns.
pub proof fn lemma_cache_last_write_wins(
    cache: Map<Seq<u8>, CacheEntryView>,
    key: Seq<u8>,
    first: CacheEntryView,
    second: CacheEntryView,
)
    ensures
        cache.insert(key, first).insert(key, second).contains_key(key),
        cache.insert(key, first).insert(key, second)[key] == second,
{
}

/// A read after a write returns exactly what was written, and leaves every
/// other key as it was, until the key is overwritten.
pub proof fn lemma_cache_get_after_put(
    cache: Map<Seq<u8>, CacheEntryView>,
    key: Seq<u8>,
    entry: CacheEntryView,
    other: Seq<u8>,
)
    ensures
        cache.insert(key, entry).contains_key(key),
        cache.insert(key, entry)[key] == entry,
        other != key ==> (cache.insert(key, entry).contains_key(other) <==> cache.contains_key(
            other,
        )),
        other != key && cache.contains_key(other) ==> cache.insert(key, entry)[other]
            == cache[other],
{
}

} // verus!
