//! Capacity-aware insertion, as a sequence of verified steps.
//!
//! Placing a file may require deleting other files. File deletion happens
//! outside the library, so an insertion is driven step by step: each step
//! updates the store and names the file whose reclamation the caller must
//! attempt next, and the caller reports back how many bytes that freed.
use vstd::prelude::*;

use crate::error::{LRUError, LRUResult};
use crate::store::{inserted, lookup, has_key, touched, no_dup_keys, Entry};
use crate::{lemma_lookup_at, LruCache};

verus! {

/// One evicted entry: its key, the path of its file and the bytes reclaimed.
#[derive(Debug, Clone, PartialEq, Eq, PartialOrd, Ord, Hash)]
pub struct FileInfo {
    pub key: u64,
    pub file_path: String,
    pub file_size: u64,
}

/// What the caller does next for an insertion in progress.
#[derive(Debug, Clone, PartialEq, Eq)]
pub enum Action {
    /// Delete this file, which the key held before. Best effort: any failure
    /// counts as nothing reclaimed.
    ReclaimReplaced(String),
    /// Delete this file, the least recently used entry's. Absence counts as
    /// nothing reclaimed; any other failure aborts the insertion.
    ReclaimEvicted(String),
    /// The new entry is stored: the insertion is complete.
    Committed,
}

/// The sum of the reclaimed sizes of `s`.
pub open spec fn sum_sizes(s: Seq<FileInfo>) -> int
    decreases s.len(),
{
    if s.len() == 0 {
        0
    } else {
        sum_sizes(s.drop_last()) + s.last().file_size
    }
}

/// The bytes a reclamation freed; nothing if the file was absent.
pub open spec fn freed_bytes(freed: Option<u64>) -> int {
    match freed {
        Some(n) => n as int,
        None => 0,
    }
}

/// The records describe the first entries of `start`, in order.
pub open spec fn records_follow(removed: Seq<FileInfo>, start: Seq<Entry>) -> bool {
    &&& removed.len() <= start.len()
    &&& forall|i: int|
        0 <= i < removed.len() ==> #[trigger] removed[i].key == start[i].0
            && removed[i].file_path@ == start[i].1
}

/// Every eviction happened while space was still needed.
pub open spec fn each_was_needed(removed: Seq<FileInfo>, start_exceed: int) -> bool {
    forall|j: int| 0 <= j < removed.len() ==> start_exceed - #[trigger] sum_sizes(removed.take(j)) >= 0
}

/// The outcome of one step of the eviction loop that returned an action:
/// `exceed` is the overflow still to cover, `s` the store before the step
/// and `s2` after it.
pub open spec fn step_ok(
    key: u64,
    path: Seq<char>,
    exceed: int,
    s: Seq<Entry>,
    cap: nat,
    a: Action,
    s2: Seq<Entry>,
) -> bool {
    match a {
        Action::Committed => exceed < 0 && s2 == inserted(s, key, path, cap),
        Action::ReclaimEvicted(p) => exceed >= 0 && s.len() > 0 && p@ == s[0].1 && s2 == s,
        Action::ReclaimReplaced(_) => false,
    }
}

/// The outcome of one step of the eviction loop that failed. The store
/// may fail at any step; the capacity error comes exactly when space is
/// still needed and nothing is left to evict.
pub open spec fn step_err(exceed: int, s: Seq<Entry>, e: LRUError, s2: Seq<Entry>) -> bool {
    match e {
        LRUError::InsufficientCapacity => exceed >= 0 && s.len() == 0 && s2 == s,
        LRUError::DiskLRU(_) => true,
        LRUError::IO(_) => false,
    }
}

/// An insertion in progress.
pub struct Insertion {
    key: u64,
    path: String,
    exceed: i128,
    removed: Vec<FileInfo>,
    candidate: Option<(u64, String)>,
    replacing: bool,
    start: Ghost<Seq<Entry>>,
    start_exceed: Ghost<int>,
}

impl Insertion {
    /// The key being placed.
    pub closed spec fn key(&self) -> u64 {
        self.key
    }

    /// The path being placed.
    pub closed spec fn path(&self) -> Seq<char> {
        self.path@
    }

    /// Bytes still needed; negative once the new file fits.
    pub closed spec fn exceed(&self) -> int {
        self.exceed as int
    }

    /// The evictions so far, oldest first.
    pub closed spec fn removed(&self) -> Seq<FileInfo> {
        self.removed@
    }

    /// The entry whose file awaits reclamation.
    pub closed spec fn candidate(&self) -> Option<(u64, String)> {
        self.candidate
    }

    /// The file that the key held before awaits reclamation.
    pub closed spec fn replacing(&self) -> bool {
        self.replacing
    }

    /// The store when the eviction loop began.
    pub closed spec fn start(&self) -> Seq<Entry> {
        self.start@
    }

    /// The overflow when the eviction loop began, after the replaced file
    /// was accounted for.
    pub closed spec fn start_exceed(&self) -> int {
        self.start_exceed@
    }

    /// The bytes needed stay within what the arithmetic holds.
    pub open spec fn exceed_in_range(&self) -> bool {
        -0x2_0000_0000_0000_0000 < self.exceed() && self.exceed() <= isize::MAX
    }

    /// How the insertion relates to the store `s` between steps.
    pub open spec fn inv(&self, s: Seq<Entry>) -> bool {
        &&& self.exceed_in_range()
        &&& self.replacing() ==> self.removed().len() == 0 && self.candidate() is None
            && self.exceed() >= isize::MIN
        &&& !self.replacing() ==> {
            let n = self.removed().len();
            &&& records_follow(self.removed(), self.start())
            &&& each_was_needed(self.removed(), self.start_exceed())
            &&& self.exceed() == self.start_exceed() - sum_sizes(self.removed())
            &&& s == self.start().subrange(n as int, self.start().len() as int)
            &&& self.candidate() is Some ==> {
                &&& n < self.start().len()
                &&& self.exceed() >= 0
                &&& self.candidate()->Some_0.0 == self.start()[n as int].0
                &&& self.candidate()->Some_0.1@ == self.start()[n as int].1
            }
        }
    }

    /// A reclamation is awaited.
    pub open spec fn awaiting(&self) -> bool {
        self.replacing() || self.candidate() is Some
    }

    /// The overflow once the awaited reclamation freed `freed`.
    pub open spec fn exceed_after(&self, freed: Option<u64>) -> int {
        self.exceed() - freed_bytes(freed)
    }

    /// The store once the awaited eviction is done.
    pub open spec fn store_after(&self, s: Seq<Entry>) -> Seq<Entry> {
        if self.replacing() {
            s
        } else {
            s.drop_first()
        }
    }

    /// The records once the awaited eviction is done.
    pub open spec fn removed_after(&self, freed: Option<u64>) -> Seq<FileInfo> {
        if self.replacing() {
            self.removed()
        } else {
            self.removed().push(
                FileInfo {
                    key: self.candidate()->Some_0.0,
                    file_path: self.candidate()->Some_0.1,
                    file_size: match freed {
                        Some(n) => n,
                        None => 0,
                    },
                },
            )
        }
    }

    /// The evictions so far, oldest first.
    pub fn records(&self) -> (r: &Vec<FileInfo>)
        ensures
            r@ == self.removed(),
    {
        &self.removed
    }

    /// The evictions, oldest first, once the insertion is over.
    pub fn into_records(self) -> (r: Vec<FileInfo>)
        ensures
            r@ == self.removed(),
    {
        self.removed
    }
}


/// Adding a record adds its size, and leaves the sums of the earlier
/// prefixes as they were.
proof fn lemma_sum_push(s: Seq<FileInfo>, f: FileInfo)
    ensures
        sum_sizes(s.push(f)) == sum_sizes(s) + f.file_size,
        forall|j: int| 0 <= j <= s.len() ==> #[trigger] s.push(f).take(j) == s.take(j),
{
    assert(s.push(f).drop_last() =~= s);
    assert forall|j: int| 0 <= j <= s.len() implies #[trigger] s.push(f).take(j) == s.take(j) by {
        assert(s.push(f).take(j) =~= s.take(j));
    }
}

/// Without repeated keys, taking out the key of the first entry takes out
/// the first entry.
proof fn lemma_without_first(e: Seq<Entry>)
    requires
        no_dup_keys(e),
        e.len() > 0,
    ensures
        crate::store::without_key(e, e[0].0) == e.drop_first(),
{
    lemma_lookup_at(e, 0);
    assert(e.remove(0) =~= e.drop_first());
}

impl LruCache {
    /// One round of the eviction loop: commit if the new file fits, else
    /// name the least recently used entry for eviction.
    fn advance(&mut self, ins: &mut Insertion) -> (r: LRUResult<Action>)
        requires
            old(self).wf(),
            old(ins).inv(old(self)@),
            !old(ins).awaiting(),
        ensures
            final(self).wf(),
            final(self).capacity() == old(self).capacity(),
            final(ins).key() == old(ins).key(),
            final(ins).path() == old(ins).path(),
            final(ins).removed() == old(ins).removed(),
            final(ins).exceed() == old(ins).exceed(),
            final(ins).start() == old(ins).start(),
            final(ins).start_exceed() == old(ins).start_exceed(),
            r is Ok ==> step_ok(
                old(ins).key(),
                old(ins).path(),
                old(ins).exceed(),
                old(self)@,
                old(self).capacity(),
                r->Ok_0,
                final(self)@,
            ),
            r is Ok && r->Ok_0 is ReclaimEvicted ==> final(ins).inv(final(self)@)
                && final(ins).awaiting(),
            !(r is Ok && r->Ok_0 is ReclaimEvicted) ==> *final(ins) == *old(ins),
            r is Err ==> step_err(old(ins).exceed(), old(self)@, r->Err_0, final(self)@),
    {
        if ins.exceed < 0 {
            match self.insert(&ins.key, &ins.path) {
                Ok(_) => Ok(Action::Committed),
                Err(e) => Err(e),
            }
        } else {
            match self.least_recently_used_pair() {
                Ok(Some((k, p))) => {
                    let ghost n = ins.removed@.len();
                    proof {
                        assert(self@[0] == ins.start@[n as int]);
                    }
                    ins.candidate = Some((k, p.clone()));
                    Ok(Action::ReclaimEvicted(p))
                },
                Ok(None) => Err(LRUError::InsufficientCapacity),
                Err(e) => Err(e),
            }
        }
    }

    /// Begins placing `path` under `key`. `exceed` is the number of bytes
    /// still needed once the new file is counted: its size less the
    /// capacity that is free, without subtracting a file that the key
    /// already holds.
    ///
    /// If the key holds a file already, that file is to be reclaimed first;
    /// the key moves to the most recently used end and stays in the store.
    /// Otherwise the first round of the eviction loop runs at once.
    pub fn start_insert(&mut self, key: u64, path: String, exceed: isize) -> (r: LRUResult<
        (Insertion, Action),
    >)
        requires
            old(self).wf(),
        ensures
            final(self).wf(),
            final(self).capacity() == old(self).capacity(),
            r is Ok ==> {
                let ins = r->Ok_0.0;
                let a = r->Ok_0.1;
                &&& ins.key() == key
                &&& ins.path() == path@
                &&& ins.removed().len() == 0
                &&& ins.exceed() == exceed
                &&& if has_key(old(self)@, key) {
                    &&& a matches Action::ReclaimReplaced(p) && lookup(old(self)@, key) == Some(
                        p@,
                    )
                    &&& final(self)@ == touched(old(self)@, key)
                    &&& ins.replacing()
                    &&& ins.inv(final(self)@)
                } else {
                    &&& step_ok(key, path@, exceed as int, old(self)@, old(self).capacity(), a, final(self)@)
                    &&& a is ReclaimEvicted ==> ins.inv(final(self)@) && ins.awaiting()
                        && ins.start() == old(self)@ && ins.start_exceed() == exceed
                }
            },
            r is Err ==> (r->Err_0 is DiskLRU || (!has_key(old(self)@, key) && step_err(
                exceed as int,
                old(self)@,
                r->Err_0,
                final(self)@,
            ))),
    {
        let old_path = match self.access(&key) {
            Ok(v) => v,
            Err(e) => return Err(e),
        };
        let mut ins = Insertion {
            key,
            path,
            exceed: exceed as i128,
            removed: Vec::new(),
            candidate: None,
            replacing: false,
            start: Ghost(self@),
            start_exceed: Ghost(exceed as int),
        };
        proof {
            assert(self@.subrange(0, self@.len() as int) =~= self@);
            assert(sum_sizes(ins.removed@) == 0);
        }
        match old_path {
            Some(p) => {
                ins.replacing = true;
                Ok((ins, Action::ReclaimReplaced(p)))
            },
            None => match self.advance(&mut ins) {
                Ok(a) => Ok((ins, a)),
                Err(e) => Err(e),
            },
        }
    }

    /// Reports what the awaited reclamation freed (`None`: nothing, the
    /// file was absent) and runs the next round of the eviction loop.
    ///
    /// After a replaced file, the overflow drops by what it freed. After an
    /// evicted file, the entry leaves the store whatever was freed, so that
    /// every round shrinks the store, and its record is appended.
    pub fn resume_insert(&mut self, ins: &mut Insertion, freed: Option<u64>) -> (r: LRUResult<
        Action,
    >)
        requires
            old(self).wf(),
            old(ins).inv(old(self)@),
            old(ins).awaiting(),
        ensures
            final(self).wf(),
            final(self).capacity() == old(self).capacity(),
            final(ins).key() == old(ins).key(),
            final(ins).path() == old(ins).path(),
            r is Ok || r->Err_0 is InsufficientCapacity ==> {
                &&& final(ins).removed() == old(ins).removed_after(freed)
                &&& final(ins).exceed() == old(ins).exceed_after(freed)
            },
            r is Ok ==> step_ok(
                old(ins).key(),
                old(ins).path(),
                old(ins).exceed_after(freed),
                old(ins).store_after(old(self)@),
                old(self).capacity(),
                r->Ok_0,
                final(self)@,
            ),
            r is Ok && r->Ok_0 is ReclaimEvicted ==> final(ins).inv(final(self)@)
                && final(ins).awaiting(),
            r is Ok && r->Ok_0 is Committed ==> !final(ins).replacing()
                && final(ins).candidate() is None && each_was_needed(
                final(ins).removed(),
                final(ins).start_exceed(),
            ) && final(ins).exceed() == final(ins).start_exceed() - sum_sizes(
                final(ins).removed(),
            ) && records_follow(final(ins).removed(), final(ins).start()),
            r is Err ==> (r->Err_0 is DiskLRU || step_err(
                old(ins).exceed_after(freed),
                old(ins).store_after(old(self)@),
                r->Err_0,
                final(self)@,
            )),
    {
        let size: u64 = match freed {
            Some(n) => n,
            None => 0,
        };
        if ins.replacing {
            ins.exceed = ins.exceed - size as i128;
            ins.replacing = false;
            ins.start = Ghost(self@);
            ins.start_exceed = Ghost(ins.exceed as int);
            proof {
                assert(self@.subrange(0, self@.len() as int) =~= self@);
                assert(sum_sizes(ins.removed@) == 0);
            }
        } else {
            let ghost s0 = self@;
            let ghost n: int = ins.removed@.len() as int;
            let ghost removed0 = ins.removed@;
            let ghost cand = ins.candidate;
            let (key, file_path) = match ins.candidate.take() {
                Some(c) => c,
                None => vstd::pervasive::unreached(),
            };
            match self.pop(&key) {
                Ok(_) => {},
                Err(e) => return Err(e),
            }
            let info = FileInfo { key, file_path, file_size: size };
            proof {
                assert(info.key == ins.start@[n].0);
                assert(info.file_path@ == ins.start@[n].1);
            }
            ins.removed.push(info);
            ins.exceed = ins.exceed - size as i128;
            proof {
                lemma_without_first(s0);
                lemma_sum_push(removed0, info);
                assert(ins.removed@.take(n) == removed0.take(n));
                assert(removed0.take(n) =~= removed0);
                let st = ins.start@;
                assert(self@ =~= st.subrange(n + 1, st.len() as int));
                assert forall|j: int| 0 <= j < ins.removed@.len() implies ins.start_exceed@
                    - #[trigger] sum_sizes(ins.removed@.take(j)) >= 0 by {
                    if j < n {
                        assert(ins.removed@.take(j) == removed0.take(j));
                    }
                }
                assert forall|i: int| 0 <= i < ins.removed@.len() implies (#[trigger] ins.removed@[i]).key
                    == st[i].0 && ins.removed@[i].file_path@ == st[i].1 by {
                    if i < n {
                        assert(ins.removed@[i] == removed0[i]);
                        assert(removed0[i].key == st[i].0);
                        assert(removed0[i].file_path@ == st[i].1);
                    } else {
                        assert(ins.removed@[i] == info);
                        assert(i == n);
                    }
                }
                assert(records_follow(ins.removed@, st));
            }
        }
        self.advance(ins)
    }
}

/// Every round of the eviction loop moves one entry from the store to the
/// records: the records and the store together are always the store the
/// loop began with, so an insertion ends after at most as many eviction
/// rounds as that store held entries, plus the round that commits or fails.
pub proof fn lemma_rounds_bounded(ins: Insertion, s: Seq<Entry>)
    requires
        ins.inv(s),
        !ins.replacing(),
    ensures
        ins.removed().len() + s.len() == ins.start().len(),
{
}

/// Once an insertion commits, the records are the oldest entries of the
/// store, in order, and no shorter run of them would have freed enough:
/// their sizes add up to more than the overflow, and every proper prefix
/// adds up to at most the overflow.
pub proof fn lemma_evictions_minimal(ins: Insertion)
    requires
        !ins.replacing(),
        each_was_needed(ins.removed(), ins.start_exceed()),
        ins.exceed() == ins.start_exceed() - sum_sizes(ins.removed()),
        records_follow(ins.removed(), ins.start()),
        ins.exceed() < 0,
    ensures
        sum_sizes(ins.removed()) > ins.start_exceed(),
        forall|j: int|
            0 <= j < ins.removed().len() ==> #[trigger] sum_sizes(ins.removed().take(j))
                <= ins.start_exceed(),
        forall|i: int|
            0 <= i < ins.removed().len() ==> (#[trigger] ins.removed()[i]).key == ins.start()[i].0
                && ins.removed()[i].file_path@ == ins.start()[i].1,
{
}

/// An access moves the key to the most recently used end and keeps the
/// order of all other keys.
pub proof fn lemma_access_moves_to_mru(e: Seq<Entry>, k: u64)
    requires
        no_dup_keys(e),
        has_key(e, k),
    ensures
        touched(e, k).len() == e.len(),
        touched(e, k).last().0 == k,
        touched(e, k).drop_last() == crate::store::without_key(e, k),
{
    let t = touched(e, k);
    assert(t.drop_last() =~= crate::store::without_key(e, k));
}

/// Taking out an absent key reports no pair and leaves the store as it was.
pub proof fn lemma_pop_absent(e: Seq<Entry>, k: u64)
    requires
        !has_key(e, k),
    ensures
        lookup(e, k) is None,
        crate::store::without_key(e, k) == e,
{
}

/// A file that was already gone frees nothing: the overflow stays, and the
/// evicted entry's record says zero bytes.
pub proof fn lemma_absent_file_frees_nothing(ins: Insertion)
    requires
        ins.awaiting(),
    ensures
        ins.exceed_after(None) == ins.exceed(),
        !ins.replacing() ==> ins.removed_after(None).last().file_size == 0,
{
}

/// When the key already held a file, that file's size comes off the
/// overflow before the eviction loop looks at it, and the key stays in the
/// store meanwhile.
pub proof fn lemma_replaced_key_stays(e: Seq<Entry>, k: u64, ins: Insertion, freed: Option<u64>)
    requires
        no_dup_keys(e),
        has_key(e, k),
        ins.replacing(),
    ensures
        has_key(touched(e, k), k),
        ins.exceed_after(freed) == ins.exceed() - freed_bytes(freed),
        ins.store_after(touched(e, k)) == touched(e, k),
{
    lemma_access_moves_to_mru(e, k);
    let t = touched(e, k);
    assert(t[t.len() - 1].0 == k);
}

} // verus!
