//! The ordered store that the cache is built on, with a model of its contents.
use vstd::prelude::*;

verus! {

/// One entry of the store: a key and the path of its backing file.
pub type Entry = (u64, Seq<char>);

/// A disklru store keyed by `u64` whose values are file paths.
#[derive(Debug)]
#[verifier::external_body]
pub struct DiskStore {
    inner: disklru::Store<u64, String>,
}

/// The entries held by a store, from the least to the most recently used.
pub uninterp spec fn entries_of(s: DiskStore) -> Seq<Entry>;

/// The number of entries a store keeps before it drops the least recently used.
pub uninterp spec fn capacity_of(s: DiskStore) -> nat;

/// No key occurs twice.
pub open spec fn no_dup_keys(e: Seq<Entry>) -> bool {
    forall|i: int, j: int| 0 <= i < e.len() && 0 <= j < e.len() && i != j ==> e[i].0 != e[j].0
}

pub open spec fn has_key(e: Seq<Entry>, k: u64) -> bool {
    exists|i: int| 0 <= i < e.len() && e[i].0 == k
}

/// Where `k` stands in `e`, or -1.
pub open spec fn index_of(e: Seq<Entry>, k: u64) -> int {
    if has_key(e, k) {
        choose|i: int| 0 <= i < e.len() && e[i].0 == k
    } else {
        -1
    }
}

/// The path stored under `k`.
pub open spec fn lookup(e: Seq<Entry>, k: u64) -> Option<Seq<char>> {
    if has_key(e, k) {
        Some(e[index_of(e, k)].1)
    } else {
        None
    }
}

/// `e` without the entry of `k`.
pub open spec fn without_key(e: Seq<Entry>, k: u64) -> Seq<Entry> {
    if has_key(e, k) {
        e.remove(index_of(e, k))
    } else {
        e
    }
}

/// `e` after an access of `k`: the entry moves to the most recently used end.
pub open spec fn touched(e: Seq<Entry>, k: u64) -> Seq<Entry> {
    if has_key(e, k) {
        without_key(e, k).push(e[index_of(e, k)])
    } else {
        e
    }
}

/// `e` after storing `v` under `k` in a store that keeps `cap` entries:
/// the pair becomes the most recently used, and the least recently used
/// entries beyond `cap` are dropped. A store of capacity zero keeps nothing.
pub open spec fn inserted(e: Seq<Entry>, k: u64, v: Seq<char>, cap: nat) -> Seq<Entry> {
    if cap == 0 {
        e
    } else {
        let f = without_key(e, k).push((k, v));
        if f.len() > cap {
            f.subrange(f.len() - cap, f.len() as int)
        } else {
            f
        }
    }
}

pub open spec fn path_view(o: Option<String>) -> Option<Seq<char>> {
    match o {
        Some(p) => Some(p@),
        None => None,
    }
}

pub open spec fn pair_view(o: Option<(u64, String)>) -> Option<Entry> {
    match o {
        Some(p) => Some((p.0, p.1@)),
        None => None,
    }
}

/// The least recently used entry.
pub open spec fn first_entry(e: Seq<Entry>) -> Option<Entry> {
    if e.len() == 0 {
        None
    } else {
        Some(e[0])
    }
}

/// The most recently used entry.
pub open spec fn last_entry(e: Seq<Entry>) -> Option<Entry> {
    if e.len() == 0 {
        None
    } else {
        Some(e.last())
    }
}

pub open spec fn key_of(o: Option<Entry>) -> Option<u64> {
    match o {
        Some(p) => Some(p.0),
        None => None,
    }
}

pub open spec fn path_of(o: Option<Entry>) -> Option<Seq<char>> {
    match o {
        Some(p) => Some(p.1),
        None => None,
    }
}

impl DiskStore {
    /// Relies on disklru::Store::open_temporary: a fresh, empty store of the
    /// given capacity.
    #[verifier::external_body]
    pub fn open_temporary(capacity: usize) -> (r: Result<DiskStore, disklru::Error>)
        ensures
            r is Ok ==> entries_of(r->Ok_0).len() == 0,
            r is Ok ==> capacity_of(r->Ok_0) == capacity,
    {
        disklru::Store::open_temporary(capacity).map(|inner| DiskStore { inner })
    }

    /// Relies on disklru::Store::open_with_path: the store kept in the
    /// directory `path`, created if absent. A store holds each key once.
    #[verifier::external_body]
    pub fn open_with_path(path: &str, capacity: usize) -> (r: Result<DiskStore, disklru::Error>)
        ensures
            r is Ok ==> no_dup_keys(entries_of(r->Ok_0)),
    {
        disklru::Store::open_with_path(path, capacity).map(|inner| DiskStore { inner })
    }

    /// Relies on disklru::Store::len: the number of entries.
    #[verifier::external_body]
    pub(crate) fn len(&self) -> (r: usize)
        ensures
            r == entries_of(*self).len(),
    {
        self.inner.len()
    }

    /// Relies on disklru::Store::get: looks `k` up and makes it the most
    /// recently used entry.
    #[verifier::external_body]
    pub(crate) fn get(&mut self, k: &u64) -> (r: Result<Option<String>, disklru::Error>)
        ensures
            no_dup_keys(entries_of(*final(self))),
            capacity_of(*final(self)) == capacity_of(*old(self)),
            r is Ok ==> path_view(r->Ok_0) == lookup(entries_of(*old(self)), *k),
            r is Ok ==> entries_of(*final(self)) == touched(entries_of(*old(self)), *k),
    {
        self.inner.get(k)
    }

    /// Relies on disklru::Store::peek: looks `k` up and leaves the order as it is.
    #[verifier::external_body]
    pub(crate) fn peek(&self, k: &u64) -> (r: Result<Option<String>, disklru::Error>)
        ensures
            r is Ok ==> path_view(r->Ok_0) == lookup(entries_of(*self), *k),
    {
        self.inner.peek(k)
    }

    /// Relies on disklru::Store::peek_key_value: the pair stored under `k`,
    /// order untouched.
    #[verifier::external_body]
    pub(crate) fn peek_key_value(&self, k: &u64) -> (r: Result<Option<(u64, String)>, disklru::Error>)
        ensures
            r is Ok ==> pair_view(r->Ok_0) == (match lookup(entries_of(*self), *k) {
                Some(v) => Some((*k, v)),
                None => None::<Entry>,
            }),
    {
        self.inner.peek_key_value(k)
    }

    /// Relies on disklru::Store::insert: stores `v` under `k` as the most
    /// recently used entry, drops the least recently used ones beyond the
    /// capacity, and hands back the value it replaced. With capacity zero it
    /// does nothing.
    #[verifier::external_body]
    pub(crate) fn insert(&mut self, k: &u64, v: &String) -> (r: Result<Option<String>, disklru::Error>)
        ensures
            no_dup_keys(entries_of(*final(self))),
            capacity_of(*final(self)) == capacity_of(*old(self)),
            r is Ok ==> path_view(r->Ok_0) == (if capacity_of(*old(self)) == 0 {
                None::<Seq<char>>
            } else {
                lookup(entries_of(*old(self)), *k)
            }),
            r is Ok ==> entries_of(*final(self)) == inserted(
                entries_of(*old(self)),
                *k,
                v@,
                capacity_of(*old(self)),
            ),
    {
        self.inner.insert(k, v)
    }

    /// Relies on disklru::Store::pop: takes the entry of `k` out.
    #[verifier::external_body]
    pub(crate) fn pop(&mut self, k: &u64) -> (r: Result<Option<(u64, String)>, disklru::Error>)
        ensures
            no_dup_keys(entries_of(*final(self))),
            capacity_of(*final(self)) == capacity_of(*old(self)),
            r is Ok ==> pair_view(r->Ok_0) == (match lookup(entries_of(*old(self)), *k) {
                Some(v) => Some((*k, v)),
                None => None::<Entry>,
            }),
            r is Ok ==> entries_of(*final(self)) == without_key(entries_of(*old(self)), *k),
    {
        self.inner.pop(k)
    }

    /// Relies on disklru::Store::pop_lru: takes the least recently used entry out.
    #[verifier::external_body]
    pub(crate) fn pop_lru(&mut self) -> (r: Result<Option<(u64, String)>, disklru::Error>)
        ensures
            no_dup_keys(entries_of(*final(self))),
            capacity_of(*final(self)) == capacity_of(*old(self)),
            r is Ok ==> pair_view(r->Ok_0) == first_entry(entries_of(*old(self))),
            r is Ok ==> entries_of(*final(self)) == (if entries_of(*old(self)).len() == 0 {
                entries_of(*old(self))
            } else {
                entries_of(*old(self)).drop_first()
            }),
    {
        self.inner.pop_lru()
    }

    /// Relies on disklru::Store::mru: the most recently used key.
    #[verifier::external_body]
    pub(crate) fn mru(&self) -> (r: Result<Option<u64>, disklru::Error>)
        ensures
            r is Ok ==> r->Ok_0 == key_of(last_entry(entries_of(*self))),
    {
        self.inner.mru()
    }

    /// Relies on disklru::Store::lru: the least recently used key. On a
    /// store with no entries, lru finds no head and reports a bug
    /// ("head not found"); that answer is read as "no key".
    #[verifier::external_body]
    pub(crate) fn lru(&self) -> (r: Result<Option<u64>, disklru::Error>)
        ensures
            r is Ok ==> r->Ok_0 == key_of(first_entry(entries_of(*self))),
    {
        match self.inner.lru() {
            Err(disklru::Error::ReportBug(_)) => Ok(None),
            other => other,
        }
    }

    /// Relies on disklru::Store::peek_mru: the most recently used path, order
    /// untouched.
    #[verifier::external_body]
    pub(crate) fn peek_mru(&self) -> (r: Result<Option<String>, disklru::Error>)
        ensures
            r is Ok ==> path_view(r->Ok_0) == path_of(last_entry(entries_of(*self))),
    {
        self.inner.peek_mru()
    }
}

} // verus!
