use vstd::prelude::*;
use crate::data::CacheValue;
use crate::data::CacheValueView;

verus! {

/// One stored record: a cached value and the Unix time (in seconds) at
/// which the value was fetched. The timestamp always reflects the fetch
/// time of the value beside it.
pub struct StoredEntry {
    pub key: String,
    pub value: CacheValue,
    pub timestamp: u64,
}

/// The mathematical content of one record.
#[verifier::ext_equal]
pub struct RecordView {
    pub value: CacheValueView,
    pub timestamp: u64,
}

/// The record view of one entry.
pub open spec fn entry_rec(e: StoredEntry) -> RecordView {
    RecordView { value: e.value@, timestamp: e.timestamp }
}

/// Association-list lookup: the record of the first entry whose key is
/// `k`, if any.
pub open spec fn sget(s: Seq<StoredEntry>, k: Seq<char>) -> Option<RecordView>
    decreases s.len(),
{
    if s.len() == 0 {
        None
    } else if s[0].key@ == k {
        Some(entry_rec(s[0]))
    } else {
        sget(s.drop_first(), k)
    }
}

/// A key misses exactly when no entry carries it.
proof fn lemma_sget_absent(s: Seq<StoredEntry>, k: Seq<char>)
    ensures
        (sget(s, k) is None) <==> (forall|i: int| 0 <= i < s.len() ==> s[i].key@ != k),
    decreases s.len(),
{
    if s.len() > 0 {
        lemma_sget_absent(s.drop_first(), k);
        if s[0].key@ == k {
            assert(!(0 <= 0 < s.len() ==> s[0].key@ != k));
        } else {
            assert forall|i: int| 0 <= i < s.len() - 1 implies #[trigger] s.drop_first()[i] == s[i
                + 1] by {}
            if sget(s, k) is None {
                assert forall|i: int| 0 <= i < s.len() implies s[i].key@ != k by {
                    if i > 0 {
                        assert(s.drop_first()[i - 1].key@ != k);
                        assert(s.drop_first()[i - 1] == s[i]);
                    }
                }
            }
            if forall|i: int| 0 <= i < s.len() ==> s[i].key@ != k {
                assert forall|i: int| 0 <= i < s.drop_first().len() implies s.drop_first()[i].key@
                    != k by {
                    assert(s.drop_first()[i] == s[i + 1]);
                    assert(s[i + 1].key@ != k);
                }
                assert(sget(s.drop_first(), k) is None);
            }
        }
    }
}

/// A key that hits is carried by some entry.
proof fn lemma_sget_present(s: Seq<StoredEntry>, k: Seq<char>)
    requires
        sget(s, k) is Some,
    ensures
        exists|i: int| #![trigger s[i]] 0 <= i < s.len() && s[i].key@ == k,
    decreases s.len(),
{
    if s[0].key@ == k {
        assert(0 <= 0 < s.len() && s[0].key@ == k);
    } else {
        lemma_sget_present(s.drop_first(), k);
        let i = choose|i: int| #![trigger s.drop_first()[i]]
            0 <= i < s.drop_first().len() && s.drop_first()[i].key@ == k;
        assert(s.drop_first()[i] == s[i + 1]);
        assert(0 <= i + 1 < s.len() && s[i + 1].key@ == k);
    }
}

/// The first matching entry decides the lookup.
proof fn lemma_sget_first_match(s: Seq<StoredEntry>, k: Seq<char>, i: int)
    requires
        0 <= i < s.len(),
        s[i].key@ == k,
        forall|j: int| 0 <= j < i ==> s[j].key@ != k,
    ensures
        sget(s, k) == Some(entry_rec(s[i])),
    decreases i,
{
    if i > 0 {
        lemma_sget_first_match(s.drop_first(), k, i - 1);
    }
}

/// Appending an entry only fills a key that missed before.
proof fn lemma_sget_push(s: Seq<StoredEntry>, e: StoredEntry, k: Seq<char>)
    ensures
        sget(s, k) is Some ==> sget(s.push(e), k) == sget(s, k),
        sget(s, k) is None && e.key@ == k ==> sget(s.push(e), k) == Some(entry_rec(e)),
        sget(s, k) is None && e.key@ != k ==> sget(s.push(e), k) is None,
    decreases s.len(),
{
    if s.len() == 0 {
        assert(s.push(e)[0] == e);
        if e.key@ != k {
            assert(s.push(e).drop_first() =~= Seq::<StoredEntry>::empty());
            assert(sget(s.push(e).drop_first(), k) is None);
            assert(sget(s.push(e), k) is None);
        }
    } else {
        assert(s.push(e)[0] == s[0]);
        if s[0].key@ != k {
            assert(s.push(e).drop_first() =~= s.drop_first().push(e));
            lemma_sget_push(s.drop_first(), e, k);
            assert(sget(s.push(e), k) == sget(s.drop_first().push(e), k));
            assert(sget(s, k) == sget(s.drop_first(), k));
            if sget(s.drop_first(), k) is None && e.key@ != k {
                assert(sget(s.drop_first().push(e), k) is None);
            }
        }
    }
}

/// Removing the only entry that carries `k` empties `k` and leaves every
/// other key's lookup unchanged.
proof fn lemma_sget_remove(s: Seq<StoredEntry>, i: int, k: Seq<char>, k2: Seq<char>)
    requires
        0 <= i < s.len(),
        s[i].key@ == k,
        forall|j: int| 0 <= j < s.len() && j != i ==> s[j].key@ != k,
    ensures
        sget(s.remove(i), k2) == (if k2 == k {
            None::<RecordView>
        } else {
            sget(s, k2)
        }),
    decreases s.len(),
{
    s.remove_ensures(i);
    if i == 0 {
        assert(s.remove(0) =~= s.drop_first());
        if k2 == k {
            lemma_sget_absent(s.drop_first(), k);
            assert(forall|j: int| 0 <= j < s.len() - 1 ==> s.drop_first()[j] == s[j + 1]);
        }
    } else {
        assert(s.remove(i)[0] == s[0]);
        assert(s.remove(i).drop_first() =~= s.drop_first().remove(i - 1));
        assert(forall|j: int| 0 <= j < s.len() - 1 ==> s.drop_first()[j] == s[j + 1]);
        lemma_sget_remove(s.drop_first(), i - 1, k, k2);
    }
}

/// The disk-backed store as the cache sees it: a mapping from composite
/// key to one record. Writes replace the whole record; removal happens
/// only through explicit invalidation.
pub struct CacheStore {
    entries: Vec<StoredEntry>,
}

impl View for CacheStore {
    type V = Map<Seq<char>, RecordView>;

    closed spec fn view(&self) -> Map<Seq<char>, RecordView> {
        Map::new(
            |k: Seq<char>| sget(self.entries@, k) is Some,
            |k: Seq<char>| sget(self.entries@, k)->Some_0,
        )
    }
}

/// The index of the first entry carrying `key`, if any.
fn find_in(entries: &Vec<StoredEntry>, key: &String) -> (r: Option<usize>)
    ensures
        match r {
            Some(i) => i < entries@.len() && sget(entries@, key@) == Some(
                entry_rec(entries@[i as int]),
            ) && entries@[i as int].key@ == key@ && (forall|j: int|
                0 <= j < i ==> entries@[j].key@ != key@),
            None => sget(entries@, key@) is None,
        },
{
    let mut i: usize = 0;
    while i < entries.len()
        invariant
            i <= entries@.len(),
            forall|j: int| 0 <= j < i ==> entries@[j].key@ != key@,
        decreases entries@.len() - i,
    {
        if entries[i].key.eq(key) {
            proof {
                lemma_sget_first_match(entries@, key@, i as int);
            }
            return Some(i);
        }
        i = i + 1;
    }
    proof {
        lemma_sget_absent(entries@, key@);
    }
    None
}

impl CacheStore {
    #[verifier::type_invariant]
    spec fn wf(self) -> bool {
        forall|i: int, j: int|
            0 <= i < j < self.entries@.len() ==> self.entries@[i].key@ != self.entries@[j].key@
    }

    /// An empty store.
    pub fn new() -> (r: CacheStore)
        ensures
            r@ == Map::<Seq<char>, RecordView>::empty(),
    {
        let r = CacheStore { entries: Vec::new() };
        proof {
            assert(r@ =~= Map::<Seq<char>, RecordView>::empty());
        }
        r
    }

    /// Snapshot read of one record: the stored value and its fetch time.
    pub fn read(&self, key: &String) -> (r: Option<(CacheValue, u64)>)
        ensures
            match r {
                Some(p) => self@.contains_key(key@) && p.0@ == self@[key@].value && p.1
                    == self@[key@].timestamp,
                None => !self@.contains_key(key@),
            },
    {
        match find_in(&self.entries, key) {
            Some(i) => {
                let e = &self.entries[i];
                Some((e.value.clone(), e.timestamp))
            },
            None => None,
        }
    }

    /// Atomic single-key write: replaces any prior record under `key`
    /// with `(value, timestamp)` and touches nothing else.
    pub fn write(&mut self, key: String, value: CacheValue, timestamp: u64)
        ensures
            final(self)@ == old(self)@.insert(
                key@,
                RecordView { value: value@, timestamp },
            ),
    {
        proof {
            use_type_invariant(&*self);
        }
        let ghost kview = key@;
        let ghost pre = self.entries@;
        let mut entries: Vec<StoredEntry> = Vec::new();
        core::mem::swap(&mut entries, &mut self.entries);
        match find_in(&entries, &key) {
            Some(i) => {
                entries.remove(i);
                proof {
                    pre.remove_ensures(i as int);
                    assert forall|k2: Seq<char>|
                        sget(entries@, k2) == (if k2 == kview {
                            None::<RecordView>
                        } else {
                            sget(pre, k2)
                        }) by {
                        lemma_sget_remove(pre, i as int, kview, k2);
                    }
                    assert forall|a: int, b: int|
                        0 <= a < b < entries@.len() implies entries@[a].key@
                        != entries@[b].key@ by {
                        assert(entries@[a] == (if a < i { pre[a] } else { pre[a + 1] }));
                        assert(entries@[b] == (if b < i { pre[b] } else { pre[b + 1] }));
                    }
                }
            },
            None => {
                proof {
                    lemma_sget_absent(pre, kview);
                    assert(entries@ == pre);
                    assert forall|k2: Seq<char>|
                        sget(entries@, k2) == (if k2 == kview {
                            None::<RecordView>
                        } else {
                            sget(pre, k2)
                        }) by {
                    }
                }
            },
        }
        let ghost mid = entries@;
        let e = StoredEntry { key, value, timestamp };
        let ghost ge = e;
        entries.push(e);
        proof {
            assert(entries@ == mid.push(ge));
            assert forall|k2: Seq<char>|
                sget(entries@, k2) == (if k2 == kview {
                    Some(entry_rec(ge))
                } else {
                    sget(mid, k2)
                }) by {
                lemma_sget_push(mid, ge, k2);
                if k2 != kview && sget(mid, k2) is None {
                    assert(sget(entries@, k2) is None);
                }
            }
            lemma_sget_absent(mid, kview);
            assert forall|a: int, b: int|
                0 <= a < b < entries@.len() implies entries@[a].key@ != entries@[b].key@ by {
                if b < entries@.len() - 1 {
                    assert(entries@[a] == mid[a] && entries@[b] == mid[b]);
                } else {
                    assert(entries@[a] == mid[a] && entries@[b] == ge);
                }
            }
        }
        self.entries = entries;
        proof {
            assert(self@ =~= old(self)@.insert(
                kview,
                RecordView { value: ge.value@, timestamp: ge.timestamp },
            ));
        }
    }

    /// A copy of every stored record, for persistence: each returned
    /// entry is exactly the record the store holds under its key, every
    /// stored key appears among the entries, and no key appears twice.
    pub fn snapshot(&self) -> (r: Vec<StoredEntry>)
        ensures
            forall|i: int|
                0 <= i < r@.len() ==> self@.contains_key(#[trigger] r@[i].key@) && self@[r@[i].key@]
                    == entry_rec(r@[i]),
            forall|k: Seq<char>|
                self@.contains_key(k) ==> exists|i: int|
                    #![trigger r@[i]]
                    0 <= i < r@.len() && r@[i].key@ == k,
            forall|i: int, j: int| 0 <= i < j < r@.len() ==> r@[i].key@ != r@[j].key@,
    {
        proof {
            use_type_invariant(&*self);
        }
        let mut r: Vec<StoredEntry> = Vec::new();
        let mut i: usize = 0;
        while i < self.entries.len()
            invariant
                i <= self.entries@.len(),
                self.wf(),
                r@.len() == i,
                forall|j: int| 0 <= j < i ==> #[trigger] r@[j].key@ == self.entries@[j].key@,
                forall|j: int|
                    0 <= j < r@.len() ==> self@.contains_key(#[trigger] r@[j].key@)
                        && self@[r@[j].key@] == entry_rec(r@[j]),
            decreases self.entries@.len() - i,
        {
            let e = &self.entries[i];
            let copy = StoredEntry { key: e.key.clone(), value: e.value.clone(), timestamp: e.timestamp };
            proof {
                lemma_sget_first_match(self.entries@, e.key@, i as int);
            }
            r.push(copy);
            i = i + 1;
        }
        proof {
            assert forall|k: Seq<char>| self@.contains_key(k) implies exists|i: int|
                #![trigger r@[i]]
                0 <= i < r@.len() && r@[i].key@ == k by {
                lemma_sget_present(self.entries@, k);
                let idx = choose|idx: int| #![trigger self.entries@[idx]]
                    0 <= idx < self.entries@.len() && self.entries@[idx].key@ == k;
                assert(r@[idx].key@ == k);
            }
        }
        r
    }

    /// Explicit invalidation: removes the record under `key`, if one
    /// exists, and touches nothing else.
    pub fn erase(&mut self, key: &String)
        ensures
            final(self)@ == old(self)@.remove(key@),
    {
        proof {
            use_type_invariant(&*self);
        }
        let ghost pre = self.entries@;
        let mut entries: Vec<StoredEntry> = Vec::new();
        core::mem::swap(&mut entries, &mut self.entries);
        match find_in(&entries, key) {
            Some(i) => {
                entries.remove(i);
                proof {
                    pre.remove_ensures(i as int);
                    assert forall|k2: Seq<char>|
                        sget(entries@, k2) == (if k2 == key@ {
                            None::<RecordView>
                        } else {
                            sget(pre, k2)
                        }) by {
                        lemma_sget_remove(pre, i as int, key@, k2);
                    }
                    assert forall|a: int, b: int|
                        0 <= a < b < entries@.len() implies entries@[a].key@
                        != entries@[b].key@ by {
                        assert(entries@[a] == (if a < i { pre[a] } else { pre[a + 1] }));
                        assert(entries@[b] == (if b < i { pre[b] } else { pre[b + 1] }));
                    }
                }
            },
            None => {
                proof {
                    lemma_sget_absent(pre, key@);
                }
            },
        }
        self.entries = entries;
        proof {
            assert(self@ =~= old(self)@.remove(key@));
        }
    }
}

} // verus!
