//! A key/record map with a mathematical `Map` model.
//!
//! Keys are strings, records are [`StorageRecord`]s.  The map is the unit a
//! shard owns; every engine strategy is built from one or more of these.

use vstd::prelude::*;

use crate::datatypes::{RecordV, StorageRecord};
use crate::text::str_eq;

verus! {

broadcast use vstd::std_specs::vec::group_vec_axioms, vstd::seq::group_seq_axioms;

/// A mapping from string keys to stored records, modelled as a
/// `Map<Seq<char>, RecordV>`.
#[derive(Debug)]
pub struct KvMap {
    entries: Vec<(String, StorageRecord)>,
}

pub(crate) open spec fn has_key(s: Seq<(String, StorageRecord)>, k: Seq<char>) -> bool {
    exists|i: int| 0 <= i < s.len() && s[i].0@ == k
}

pub(crate) open spec fn key_index(s: Seq<(String, StorageRecord)>, k: Seq<char>) -> int {
    choose|i: int| 0 <= i < s.len() && s[i].0@ == k
}

impl KvMap {
    /// Well-formed: no key occurs twice.
    pub closed spec fn wf(&self) -> bool {
        forall|i: int, j: int|
            0 <= i < j < self.entries@.len() ==> self.entries@[i].0@ != self.entries@[j].0@
    }

    /// The entries in insertion order, as (key, record) shapes.
    pub closed spec fn entry_views(&self) -> Seq<(Seq<char>, RecordV)> {
        Seq::new(self.entries@.len(), |i: int| (self.entries@[i].0@, self.entries@[i].1@))
    }

    /// The mathematical contents of the map.
    pub closed spec fn contents(&self) -> Map<Seq<char>, RecordV> {
        Map::new(
            |k: Seq<char>| has_key(self.entries@, k),
            |k: Seq<char>| self.entries@[key_index(self.entries@, k)].1@,
        )
    }

    pub fn new() -> (m: KvMap)
        ensures
            m.wf(),
            m.contents() == Map::<Seq<char>, RecordV>::empty(),
    {
        let m = KvMap { entries: Vec::new() };
        proof {
            assert(m.contents() =~= Map::<Seq<char>, RecordV>::empty());
        }
        m
    }

    /// Position of `key` among the entries, if present.
    fn find(&self, key: &str) -> (r: Option<usize>)
        ensures
            match r {
                Some(i) => i < self.entries@.len() && self.entries@[i as int].0@ == key@,
                None => !has_key(self.entries@, key@),
            },
    {
        let n = self.entries.len();
        let mut i: usize = 0;
        while i < n
            invariant
                i <= n,
                n == self.entries@.len(),
                forall|j: int| 0 <= j < i ==> self.entries@[j].0@ != key@,
            decreases n - i,
    {
            if str_eq(self.entries[i].0.as_str(), key) {
                return Some(i);
            }
            i += 1;
        }
        None
    }

    /// Look a key up.
    pub fn get(&self, key: &str) -> (r: Option<&StorageRecord>)
        requires
            self.wf(),
        ensures
            match r {
                Some(rec) => self.contents().contains_key(key@) && rec@ == self.contents()[key@],
                None => !self.contents().contains_key(key@),
            },
    {
        match self.find(key) {
            Some(i) => {
                proof {
                    lemma_key_index_unique(self.entries@, key@, i as int);
                }
                Some(&self.entries[i].1)
            },
            None => None,
        }
    }

    /// How many entries the map holds.
    pub fn entry_count(&self) -> (n: usize)
        ensures
            n == self.entry_views().len(),
    {
        self.entries.len()
    }

    /// The key of the entry at a position.
    pub fn key_at(&self, i: usize) -> (k: &String)
        requires
            i < self.entry_views().len(),
        ensures
            k@ == self.entry_views()[i as int].0,
    {
        &self.entries[i].0
    }

    /// The record of the entry at a position.
    pub fn record_at(&self, i: usize) -> (r: &StorageRecord)
        requires
            i < self.entry_views().len(),
        ensures
            r@ == self.entry_views()[i as int].1,
    {
        &self.entries[i].1
    }

    /// Insert or overwrite the record stored under `key`.
    pub fn insert(&mut self, key: String, rec: StorageRecord)
        requires
            old(self).wf(),
        ensures
            final(self).wf(),
            final(self).contents() == old(self).contents().insert(key@, rec@),
    {
        let found = self.find(key.as_str());
        match found {
            Some(i) => {
                self.entries.remove(i);
                self.entries.push((key, rec));
                proof {
                    lemma_contents_after_overwrite(*old(self), *self, key@, rec@, i as int);
                }
            },
            None => {
                self.entries.push((key, rec));
                proof {
                    lemma_contents_after_push(*old(self), *self, key@, rec@);
                }
            },
        }
    }
}

/// Looking up a key in well-formed entries finds exactly the one matching
/// position.
proof fn lemma_key_index_unique(s: Seq<(String, StorageRecord)>, k: Seq<char>, i: int)
    requires
        0 <= i < s.len(),
        s[i].0@ == k,
        forall|a: int, b: int| 0 <= a < b < s.len() ==> s[a].0@ != s[b].0@,
    ensures
        has_key(s, k),
        key_index(s, k) == i,
{
    assert(has_key(s, k));
    let j = key_index(s, k);
    assert(0 <= j < s.len() && s[j].0@ == k);
    if j < i {
        assert(s[j].0@ != s[i].0@);
    }
    if i < j {
        assert(s[i].0@ != s[j].0@);
    }
}

/// Appending an entry for a key the map lacked inserts it into the contents.
proof fn lemma_contents_after_push(m0: KvMap, m1: KvMap, k: Seq<char>, r: RecordV)
    requires
        m0.wf(),
        !has_key(m0.entries@, k),
        m1.entries@.len() == m0.entries@.len() + 1,
        m1.entries@[m1.entries@.len() - 1].0@ == k,
        m1.entries@[m1.entries@.len() - 1].1@ == r,
        forall|j: int| 0 <= j < m0.entries@.len() ==> m1.entries@[j] == m0.entries@[j],
    ensures
        m1.wf(),
        m1.contents() == m0.contents().insert(k, r),
{
    let s0 = m0.entries@;
    let s1 = m1.entries@;
    assert forall|k2: Seq<char>| has_key(s1, k2) == (has_key(s0, k2) || k2 == k) by {
        if has_key(s1, k2) && k2 != k {
            let j = choose|j: int| 0 <= j < s1.len() && s1[j].0@ == k2;
            assert(j < s1.len() - 1);
            assert(s0[j].0@ == k2);
        }
        if has_key(s0, k2) {
            let j = choose|j: int| 0 <= j < s0.len() && s0[j].0@ == k2;
            assert(s1[j].0@ == k2);
        }
        if k2 == k {
            assert(s1[s1.len() - 1].0@ == k2);
        }
    }
    assert forall|a: int, b: int| 0 <= a < b < s1.len() implies s1[a].0@ != s1[b].0@ by {
        if b == s1.len() - 1 {
            assert(s1[a] == s0[a]);
        } else {
            assert(s1[a] == s0[a]);
            assert(s1[b] == s0[b]);
        }
    }
    assert forall|k2: Seq<char>| has_key(s1, k2) implies s1[key_index(s1, k2)].1@
        == m0.contents().insert(k, r)[k2] by {
        if k2 == k {
            lemma_key_index_unique(s1, k2, s1.len() - 1);
        } else {
            let j0 = key_index(s0, k2);
            assert(0 <= j0 < s0.len() && s0[j0].0@ == k2);
            lemma_key_index_unique(s1, k2, j0);
        }
    }
    assert(m1.contents() =~= m0.contents().insert(k, r));
}

/// Removing the one old entry for a key and appending a fresh record for it
/// overwrites that key in the contents and touches nothing else.
proof fn lemma_contents_after_overwrite(m0: KvMap, m1: KvMap, k: Seq<char>, r: RecordV, i: int)
    requires
        m0.wf(),
        0 <= i < m0.entries@.len(),
        m0.entries@[i].0@ == k,
        m1.entries@ == m0.entries@.remove(i).push(m1.entries@[m1.entries@.len() - 1]),
        m1.entries@[m1.entries@.len() - 1].0@ == k,
        m1.entries@[m1.entries@.len() - 1].1@ == r,
    ensures
        m1.wf(),
        m1.contents() == m0.contents().insert(k, r),
{
    let s0 = m0.entries@;
    let s1 = m1.entries@;
    assert(s1.len() == s0.len());
    assert forall|j: int| 0 <= j < s1.len() - 1 implies s1[j] == (if j < i {
        s0[j]
    } else {
        s0[j + 1]
    }) by {
        assert(s1[j] == s0.remove(i)[j]);
    }
    // Only position `i` of the old entries held `k`.
    assert forall|j: int| 0 <= j < s0.len() && s0[j].0@ == k implies j == i by {
        if j < i {
            assert(s0[j].0@ != s0[i].0@);
        }
        if i < j {
            assert(s0[i].0@ != s0[j].0@);
        }
    }
    assert forall|k2: Seq<char>| has_key(s1, k2) == (has_key(s0, k2) || k2 == k) by {
        if has_key(s1, k2) && k2 != k {
            let j = choose|j: int| 0 <= j < s1.len() && s1[j].0@ == k2;
            assert(j < s1.len() - 1);
            if j < i {
                assert(s0[j].0@ == k2);
            } else {
                assert(s0[j + 1].0@ == k2);
            }
        }
        if has_key(s0, k2) && k2 != k {
            let j = choose|j: int| 0 <= j < s0.len() && s0[j].0@ == k2;
            assert(j != i);
            if j < i {
                assert(s1[j].0@ == k2);
            } else {
                assert(s1[j - 1].0@ == k2);
            }
        }
        if k2 == k {
            assert(s1[s1.len() - 1].0@ == k2);
        }
    }
    assert forall|a: int, b: int| 0 <= a < b < s1.len() implies s1[a].0@ != s1[b].0@ by {
        if b < s1.len() - 1 {
            if a < i && b < i {
                assert(s0[a].0@ != s0[b].0@);
            } else if a < i {
                assert(s0[a].0@ != s0[b + 1].0@);
            } else {
                assert(s0[a + 1].0@ != s0[b + 1].0@);
            }
        } else {
            if a < i {
                assert(s0[a].0@ != k);
            } else {
                assert(s0[a + 1].0@ != k);
            }
        }
    }
    assert forall|k2: Seq<char>| has_key(s1, k2) implies s1[key_index(s1, k2)].1@
        == m0.contents().insert(k, r)[k2] by {
        if k2 == k {
            lemma_key_index_unique(s1, k2, s1.len() - 1);
        } else {
            let j0 = key_index(s0, k2);
            assert(0 <= j0 < s0.len() && s0[j0].0@ == k2);
            assert(j0 != i);
            if j0 < i {
                lemma_key_index_unique(s1, k2, j0);
            } else {
                lemma_key_index_unique(s1, k2, j0 - 1);
            }
        }
    }
    assert(m1.contents() =~= m0.contents().insert(k, r));
}

} // verus!
