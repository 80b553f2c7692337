//! A small table keyed by protocol ids. Insertion takes a fresh key,
//! resolution is a `take` that removes and returns the entry, so one entry
//! can never be resolved twice.

use vstd::prelude::*;

verus! {

pub struct IdTable<V> {
    entries: Vec<(u64, V)>,
}

/// The map an entry list denotes; a later entry wins, though tables built
/// through `insert` never hold two entries for one key.
pub open spec fn entries_to_map<V>(s: Seq<(u64, V)>) -> Map<u64, V>
    decreases s.len(),
{
    if s.len() == 0 {
        Map::empty()
    } else {
        entries_to_map(s.drop_last()).insert(s.last().0, s.last().1)
    }
}

pub proof fn lemma_entries_to_map_domain<V>(s: Seq<(u64, V)>, k: u64)
    ensures
        entries_to_map(s).contains_key(k) <==> exists|i: int| 0 <= i < s.len() && (#[trigger] s[i]).0 == k,
    decreases s.len(),
{
    if s.len() > 0 {
        lemma_entries_to_map_domain(s.drop_last(), k);
        if entries_to_map(s).contains_key(k) {
            if s.last().0 == k {
                assert(s[s.len() - 1].0 == k);
            } else {
                let i = choose|i: int| 0 <= i < s.drop_last().len() && (#[trigger] s.drop_last()[i]).0 == k;
                assert(s[i].0 == k);
            }
        }
        if exists|i: int| 0 <= i < s.len() && (#[trigger] s[i]).0 == k {
            let i = choose|i: int| 0 <= i < s.len() && (#[trigger] s[i]).0 == k;
            if i < s.len() - 1 {
                assert(s.drop_last()[i].0 == k);
            }
        }
    }
}

/// Distinct keys in the entry list.
pub open spec fn entries_distinct<V>(s: Seq<(u64, V)>) -> bool {
    forall|i: int, j: int| 0 <= i < j < s.len() ==> (#[trigger] s[i]).0 != (#[trigger] s[j]).0
}

pub proof fn lemma_entries_to_map_index<V>(s: Seq<(u64, V)>, i: int)
    requires
        entries_distinct(s),
        0 <= i < s.len(),
    ensures
        entries_to_map(s).contains_key(s[i].0),
        entries_to_map(s)[s[i].0] == s[i].1,
    decreases s.len(),
{
    if i == s.len() - 1 {
    } else {
        assert(s.drop_last()[i] == s[i]);
        lemma_entries_to_map_index(s.drop_last(), i);
        assert(s[i].0 != s.last().0);
    }
}

pub proof fn lemma_entries_to_map_remove<V>(s: Seq<(u64, V)>, i: int)
    requires
        entries_distinct(s),
        0 <= i < s.len(),
    ensures
        entries_to_map(s.remove(i)) =~= entries_to_map(s).remove(s[i].0),
    decreases s.len(),
{
    lemma_entries_to_map_domain(s.drop_last(), s[i].0);
    if i == s.len() - 1 {
        assert(s.remove(i) =~= s.drop_last());
        assert(!entries_to_map(s.drop_last()).contains_key(s[i].0));
    } else {
        assert(s.drop_last()[i] == s[i]);
        lemma_entries_to_map_remove(s.drop_last(), i);
        assert(s.remove(i).drop_last() =~= s.drop_last().remove(i));
        assert(s.remove(i).last() == s.last());
        assert(s[i].0 != s.last().0);
    }
}

impl<V> View for IdTable<V> {
    type V = Map<u64, V>;

    closed spec fn view(&self) -> Map<u64, V> {
        entries_to_map(self.entries@)
    }
}

impl<V> IdTable<V> {
    /// Keys appear at most once in the underlying list.
    pub closed spec fn wf(&self) -> bool {
        entries_distinct(self.entries@)
    }

    pub fn new() -> (r: IdTable<V>)
        ensures
            r@ == Map::<u64, V>::empty(),
            r.wf(),
    {
        IdTable { entries: Vec::new() }
    }

    /// Parks an entry under a key not already present.
    pub fn insert(&mut self, k: u64, v: V)
        requires
            old(self).wf(),
            !old(self)@.contains_key(k),
        ensures
            final(self).wf(),
            final(self)@ == old(self)@.insert(k, v),
    {
        proof {
            lemma_entries_to_map_domain(self.entries@, k);
        }
        self.entries.push((k, v));
        proof {
            assert(self.entries@.drop_last() =~= old(self).entries@);
            assert(forall|i: int|
                0 <= i < old(self).entries@.len() ==> (#[trigger] self.entries@[i]) == old(
                    self,
                ).entries@[i]);
        }
    }

    /// Binds `k` to `v` whether or not `k` is already present.
    pub fn set(&mut self, k: u64, v: V)
        requires
            old(self).wf(),
        ensures
            final(self).wf(),
            final(self)@ == old(self)@.insert(k, v),
    {
        let _ = self.take(k);
        self.insert(k, v);
        proof {
            assert(old(self)@.remove(k).insert(k, v) =~= old(self)@.insert(k, v));
        }
    }

    /// Removes and returns the entry under `k`, if any: the one way an entry
    /// leaves the table on resolution, so no entry is ever resolved twice.
    pub fn take(&mut self, k: u64) -> (r: Option<V>)
        requires
            old(self).wf(),
        ensures
            final(self).wf(),
            match r {
                Some(v) => old(self)@.contains_key(k) && old(self)@[k] == v && final(self)@ == old(
                    self,
                )@.remove(k),
                None => !old(self)@.contains_key(k) && final(self)@ == old(self)@,
            },
    {
        let n = self.entries.len();
        let mut i: usize = 0;
        while i < n
            invariant
                0 <= i <= n,
                self == old(self),
                n == self.entries@.len(),
                self.wf(),
                forall|j: int| 0 <= j < i ==> (#[trigger] self.entries@[j]).0 != k,
            decreases n - i,
        {
            if self.entries[i].0 == k {
                proof {
                    lemma_entries_to_map_index(self.entries@, i as int);
                    lemma_entries_to_map_remove(self.entries@, i as int);
                }
                let (_, v) = self.entries.remove(i);
                proof {
                    assert(entries_distinct(self.entries@)) by {
                        assert(forall|j: int|
                            0 <= j < self.entries@.len() ==> (#[trigger] self.entries@[j]) == if j
                                < i { old(self).entries@[j] } else { old(self).entries@[j + 1] });
                    }
                }
                return Some(v);
            }
            i = i + 1;
        }
        proof {
            lemma_entries_to_map_domain(self.entries@, k);
        }
        None
    }

    /// Empties the table, handing every entry out exactly once.
    pub fn take_all(&mut self) -> (r: Vec<(u64, V)>)
        requires
            old(self).wf(),
        ensures
            final(self).wf(),
            final(self)@ == Map::<u64, V>::empty(),
            entries_distinct(r@),
            forall|i: int|
                0 <= i < r@.len() ==> old(self)@.contains_key((#[trigger] r@[i]).0) && old(
                    self,
                )@[r@[i].0] == r@[i].1,
            forall|k: u64|
                old(self)@.contains_key(k) ==> exists|i: int|
                    0 <= i < r@.len() && (#[trigger] r@[i]).0 == k,
    {
        let mut out: Vec<(u64, V)> = Vec::new();
        core::mem::swap(&mut self.entries, &mut out);
        proof {
            assert forall|i: int| 0 <= i < out@.len() implies old(self)@.contains_key(
                (#[trigger] out@[i]).0,
            ) && old(self)@[out@[i].0] == out@[i].1 by {
                lemma_entries_to_map_index(out@, i);
            }
            assert forall|k: u64| old(self)@.contains_key(k) implies exists|i: int|
                0 <= i < out@.len() && (#[trigger] out@[i]).0 == k by {
                lemma_entries_to_map_domain(out@, k);
            }
        }
        out
    }
}

impl<V: Copy> IdTable<V> {
    /// Looks an entry up without removing it.
    pub fn get_copied(&self, k: u64) -> (r: Option<V>)
        requires
            self.wf(),
        ensures
            match r {
                Some(v) => self@.contains_key(k) && self@[k] == v,
                None => !self@.contains_key(k),
            },
    {
        let n = self.entries.len();
        let mut i: usize = 0;
        while i < n
            invariant
                0 <= i <= n,
                n == self.entries@.len(),
                self.wf(),
                forall|j: int| 0 <= j < i ==> (#[trigger] self.entries@[j]).0 != k,
            decreases n - i,
        {
            if self.entries[i].0 == k {
                proof {
                    lemma_entries_to_map_index(self.entries@, i as int);
                }
                return Some(self.entries[i].1);
            }
            i = i + 1;
        }
        proof {
            lemma_entries_to_map_domain(self.entries@, k);
        }
        None
    }
}

} // verus!
