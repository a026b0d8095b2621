//! A size-aware eviction layer over a disk-backed LRU store whose values are
//! paths of files: to make room for a new file, the least recently used
//! entries are evicted, oldest first, and the caller reclaims their files.
use vstd::prelude::*;

pub mod error;
pub mod evict;
pub mod store;

pub use error::{DiskLRUError, LRUError, LRUResult};
pub use evict::{Action, FileInfo, Insertion};
pub use store::DiskStore;

verus! {

use crate::store::{
    capacity_of, entries_of, first_entry, has_key, index_of, key_of, last_entry, lookup, no_dup_keys,
    pair_view, path_of, path_view, touched, inserted, without_key, Entry,
};

/// An LRU store of file paths, with capacity-aware insertion.
#[derive(Debug)]
pub struct LruCache {
    inner: DiskStore,
}

impl View for LruCache {
    type V = Seq<Entry>;

    /// The entries, from the least to the most recently used.
    closed spec fn view(&self) -> Seq<Entry> {
        entries_of(self.inner)
    }
}

impl LruCache {
    /// Each key is held once.
    pub open spec fn wf(&self) -> bool {
        no_dup_keys(self@)
    }

    /// The number of entries the store keeps before it drops the oldest.
    pub closed spec fn capacity(&self) -> nat {
        capacity_of(self.inner)
    }

    pub fn new(store: DiskStore) -> (r: Self)
        requires
            no_dup_keys(entries_of(store)),
        ensures
            r.wf(),
            r@ == entries_of(store),
            r.capacity() == capacity_of(store),
    {
        LruCache { inner: store }
    }

    /// The number of entries.
    pub fn len(&self) -> (r: usize)
        ensures
            r == self@.len(),
    {
        self.inner.len()
    }

    /// Looks `key` up and makes it the most recently used entry; `None` if
    /// it is absent.
    pub fn access(&mut self, key: &u64) -> (r: LRUResult<Option<String>>)
        ensures
            final(self).wf(),
            final(self).capacity() == old(self).capacity(),
            r is Ok ==> path_view(r->Ok_0) == lookup(old(self)@, *key),
            r is Ok ==> final(self)@ == touched(old(self)@, *key),
            r is Err ==> r->Err_0 is DiskLRU,
    {
        match self.inner.get(key) {
            Ok(v) => Ok(v),
            Err(e) => Err(LRUError::from_store(e)),
        }
    }

    /// Looks `key` up without touching the order; `None` if it is absent.
    pub fn peek(&mut self, key: &u64) -> (r: LRUResult<Option<String>>)
        ensures
            *final(self) == *old(self),
            r is Ok ==> path_view(r->Ok_0) == lookup(old(self)@, *key),
            r is Err ==> r->Err_0 is DiskLRU,
    {
        match self.inner.peek(key) {
            Ok(v) => Ok(v),
            Err(e) => Err(LRUError::from_store(e)),
        }
    }

    /// Stores `value` under `key` as the most recently used entry; returns
    /// the value it replaced.
    pub fn insert(&mut self, key: &u64, value: &String) -> (r: LRUResult<Option<String>>)
        ensures
            final(self).wf(),
            final(self).capacity() == old(self).capacity(),
            r is Ok ==> path_view(r->Ok_0) == (if old(self).capacity() == 0 {
                None::<Seq<char>>
            } else {
                lookup(old(self)@, *key)
            }),
            r is Ok ==> final(self)@ == inserted(old(self)@, *key, value@, old(self).capacity()),
            r is Err ==> r->Err_0 is DiskLRU,
    {
        match self.inner.insert(key, value) {
            Ok(v) => Ok(v),
            Err(e) => Err(LRUError::from_store(e)),
        }
    }

    /// Takes the entry of `key` out; `None` if it is absent.
    pub fn pop(&mut self, key: &u64) -> (r: LRUResult<Option<(u64, String)>>)
        ensures
            final(self).wf(),
            final(self).capacity() == old(self).capacity(),
            r is Ok ==> pair_view(r->Ok_0) == (match lookup(old(self)@, *key) {
                Some(v) => Some((*key, v)),
                None => None::<Entry>,
            }),
            r is Ok ==> final(self)@ == without_key(old(self)@, *key),
            r is Err ==> r->Err_0 is DiskLRU,
    {
        match self.inner.pop(key) {
            Ok(v) => Ok(v),
            Err(e) => Err(LRUError::from_store(e)),
        }
    }

    /// Takes the least recently used entry out; `None` if there is none.
    pub fn pop_least_recently_used(&mut self) -> (r: LRUResult<Option<(u64, String)>>)
        ensures
            final(self).wf(),
            final(self).capacity() == old(self).capacity(),
            r is Ok ==> pair_view(r->Ok_0) == first_entry(old(self)@),
            r is Ok ==> final(self)@ == (if old(self)@.len() == 0 {
                old(self)@
            } else {
                old(self)@.drop_first()
            }),
            r is Err ==> r->Err_0 is DiskLRU,
    {
        match self.inner.pop_lru() {
            Ok(v) => Ok(v),
            Err(e) => Err(LRUError::from_store(e)),
        }
    }

    /// The most recently used key.
    pub fn most_recently_used(&self) -> (r: LRUResult<Option<u64>>)
        ensures
            r is Ok ==> r->Ok_0 == key_of(last_entry(self@)),
            r is Err ==> r->Err_0 is DiskLRU,
    {
        match self.inner.mru() {
            Ok(v) => Ok(v),
            Err(e) => Err(LRUError::from_store(e)),
        }
    }

    /// The path of the most recently used entry.
    pub fn most_recently_used_value(&mut self) -> (r: LRUResult<Option<String>>)
        ensures
            *final(self) == *old(self),
            r is Ok ==> path_view(r->Ok_0) == path_of(last_entry(old(self)@)),
            r is Err ==> r->Err_0 is DiskLRU,
    {
        match self.inner.peek_mru() {
            Ok(v) => Ok(v),
            Err(e) => Err(LRUError::from_store(e)),
        }
    }

    /// The most recently used entry.
    pub fn most_recently_used_pair(&mut self) -> (r: LRUResult<Option<(u64, String)>>)
        requires
            old(self).wf(),
        ensures
            *final(self) == *old(self),
            r is Ok ==> pair_view(r->Ok_0) == last_entry(old(self)@),
            r is Err ==> r->Err_0 is DiskLRU,
    {
        let mru_key = match self.most_recently_used() {
            Ok(Some(k)) => k,
            Ok(None) => return Ok(None),
            Err(e) => return Err(e),
        };
        let r = match self.inner.peek_key_value(&mru_key) {
            Ok(v) => Ok(v),
            Err(e) => Err(LRUError::from_store(e)),
        };
        proof {
            lemma_lookup_at(self@, self@.len() - 1);
        }
        r
    }

    /// The least recently used key.
    pub fn least_recently_used(&self) -> (r: LRUResult<Option<u64>>)
        ensures
            r is Ok ==> r->Ok_0 == key_of(first_entry(self@)),
            r is Err ==> r->Err_0 is DiskLRU,
    {
        match self.inner.lru() {
            Ok(v) => Ok(v),
            Err(e) => Err(LRUError::from_store(e)),
        }
    }

    /// The path of the least recently used entry.
    pub fn least_recently_used_value(&mut self) -> (r: LRUResult<Option<String>>)
        requires
            old(self).wf(),
        ensures
            *final(self) == *old(self),
            r is Ok ==> path_view(r->Ok_0) == path_of(first_entry(old(self)@)),
            r is Err ==> r->Err_0 is DiskLRU,
    {
        let lru_key = match self.least_recently_used() {
            Ok(Some(k)) => k,
            Ok(None) => return Ok(None),
            Err(e) => return Err(e),
        };
        let r = match self.inner.peek(&lru_key) {
            Ok(v) => Ok(v),
            Err(e) => Err(LRUError::from_store(e)),
        };
        proof {
            lemma_lookup_at(self@, 0);
        }
        r
    }

    /// The least recently used entry.
    pub fn least_recently_used_pair(&mut self) -> (r: LRUResult<Option<(u64, String)>>)
        requires
            old(self).wf(),
        ensures
            *final(self) == *old(self),
            r is Ok ==> pair_view(r->Ok_0) == first_entry(old(self)@),
            r is Err ==> r->Err_0 is DiskLRU,
    {
        let lru_key = match self.least_recently_used() {
            Ok(Some(k)) => k,
            Ok(None) => return Ok(None),
            Err(e) => return Err(e),
        };
        let r = match self.inner.peek_key_value(&lru_key) {
            Ok(v) => Ok(v),
            Err(e) => Err(LRUError::from_store(e)),
        };
        proof {
            lemma_lookup_at(self@, 0);
        }
        r
    }
}

/// In a sequence without repeated keys, the key at `i` finds the entry at `i`.
pub proof fn lemma_lookup_at(e: Seq<Entry>, i: int)
    requires
        no_dup_keys(e),
        0 <= i < e.len(),
    ensures
        has_key(e, e[i].0),
        index_of(e, e[i].0) == i,
        lookup(e, e[i].0) == Some(e[i].1),
{
    assert(e[i].0 == e[i].0);
    let j = index_of(e, e[i].0);
    assert(e[j].0 == e[i].0);
}

} // verus!
