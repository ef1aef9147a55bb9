//! A keyed table from widget identity to a state value.
//!
//! Backed by a vector of key/value pairs with pairwise-distinct keys; its
//! mathematical content is the `Map` built by inserting the pairs in order.
//! The tables the store needs are small and never shrink, so a linear scan
//! is all the lookup structure required.

use vstd::prelude::*;
use crate::id::Id;

verus! {

/// Whether the keys of a pair sequence are pairwise distinct.
pub open spec fn distinct_keys<V>(s: Seq<(Id, V)>) -> bool {
    forall|i: int, j: int|
        0 <= i < j < s.len() ==> (#[trigger] s[i]).0 != (#[trigger] s[j]).0
}

/// The map obtained by inserting the pairs of `s` from first to last.
pub open spec fn map_of<V>(s: Seq<(Id, V)>) -> Map<Id, V>
    decreases s.len(),
{
    if s.len() == 0 {
        Map::empty()
    } else {
        map_of(s.drop_last()).insert(s.last().0, s.last().1)
    }
}

/// A key is in `map_of(s)` exactly when some pair of `s` carries it.
pub proof fn lemma_map_of_contains<V>(s: Seq<(Id, V)>, k: Id)
    ensures
        map_of(s).dom().contains(k) <==> exists|i: int| 0 <= i < s.len() && (#[trigger] s[i]).0
            == k,
    decreases s.len(),
{
    if s.len() > 0 {
        lemma_map_of_contains(s.drop_last(), k);
        if s.last().0 == k {
            assert(s[s.len() - 1].0 == k);
        } else if map_of(s).dom().contains(k) {
            let i = choose|i: int| 0 <= i < s.drop_last().len() && (#[trigger] s.drop_last()[i]).0
                == k;
            assert(s[i].0 == k);
        } else if exists|i: int| 0 <= i < s.len() && (#[trigger] s[i]).0 == k {
            let i = choose|i: int| 0 <= i < s.len() && (#[trigger] s[i]).0 == k;
            assert(i < s.len() - 1);
            assert(s.drop_last()[i].0 == k);
        }
    }
}

/// With distinct keys, the pair at index `i` gives the map's value at its key.
pub proof fn lemma_map_of_at<V>(s: Seq<(Id, V)>, i: int)
    requires
        distinct_keys(s),
        0 <= i < s.len(),
    ensures
        map_of(s).dom().contains(s[i].0),
        map_of(s)[s[i].0] == s[i].1,
    decreases s.len(),
{
    if i < s.len() - 1 {
        assert(s.drop_last()[i] == s[i]);
        lemma_map_of_at(s.drop_last(), i);
        assert(s.last().0 != s[i].0);
    }
}

/// Appending a pair inserts its key.
pub proof fn lemma_map_of_push<V>(s: Seq<(Id, V)>, k: Id, v: V)
    ensures
        map_of(s.push((k, v))) == map_of(s).insert(k, v),
{
    assert(s.push((k, v)).drop_last() =~= s);
}

/// With distinct keys, overwriting the pair at index `i` in place is the
/// same as inserting its key anew.
pub proof fn lemma_map_of_update<V>(s: Seq<(Id, V)>, i: int, v: V)
    requires
        distinct_keys(s),
        0 <= i < s.len(),
    ensures
        map_of(s.update(i, (s[i].0, v))) == map_of(s).insert(s[i].0, v),
    decreases s.len(),
{
    let k = s[i].0;
    let t = s.update(i, (k, v));
    if i == s.len() - 1 {
        assert(t.drop_last() =~= s.drop_last());
        assert(map_of(s).insert(k, v) =~= map_of(s.drop_last()).insert(k, v));
    } else {
        assert(t.drop_last() =~= s.drop_last().update(i, (k, v)));
        assert(s.drop_last()[i] == s[i]);
        lemma_map_of_update(s.drop_last(), i, v);
        assert(s.last().0 != k);
        assert(t.last() == s.last());
        assert(map_of(s.drop_last()).insert(k, v).insert(s.last().0, s.last().1) =~= map_of(
            s.drop_last(),
        ).insert(s.last().0, s.last().1).insert(k, v));
    }
}

/// Keyed table from widget identity to a per-kind state value.
///
/// Entries are created on first write for an identity, overwritten on later
/// writes and never deleted; a stale entry persists harmlessly until
/// overwritten or the whole store is discarded.
pub struct IdMap<V> {
    entries: Vec<(Id, V)>,
}

impl<V> View for IdMap<V> {
    type V = Map<Id, V>;

    closed spec fn view(&self) -> Map<Id, V> {
        map_of(self.entries@)
    }
}

impl<V> IdMap<V> {
    /// Internal consistency: the backing pairs carry distinct keys.
    pub closed spec fn wf(self) -> bool {
        distinct_keys(self.entries@)
    }

    /// The backing pairs, for iteration by callers outside the store.
    pub closed spec fn spec_pairs(self) -> Seq<(Id, V)> {
        self.entries@
    }

    /// An empty table.
    pub fn new() -> (r: IdMap<V>)
        ensures
            r.wf(),
            r@ == Map::<Id, V>::empty(),
            r.spec_pairs() == Seq::<(Id, V)>::empty(),
    {
        IdMap { entries: Vec::new() }
    }

    /// Index of the entry carrying `id`, if there is one.
    fn find(&self, id: Id) -> (r: Option<usize>)
        ensures
            match r {
                Some(i) => i < self.entries@.len() && self.entries@[i as int].0 == id,
                None => forall|j: int|
                    0 <= j < self.entries@.len() ==> (#[trigger] self.entries@[j]).0 != id,
            },
    {
        let n = self.entries.len();
        let mut i: usize = 0;
        while i < n
            invariant
                n == self.entries@.len(),
                i <= n,
                forall|j: int| 0 <= j < i ==> (#[trigger] self.entries@[j]).0 != id,
            decreases n - i,
        {
            if self.entries[i].0 == id {
                return Some(i);
            }
            i = i + 1;
        }
        None
    }

    /// Snapshot read: the value stored for `id`, absent for an identity that
    /// has never been written.
    pub fn get(&self, id: Id) -> (r: Option<&V>)
        requires
            self.wf(),
        ensures
            match r {
                Some(v) => self@.dom().contains(id) && *v == self@[id],
                None => !self@.dom().contains(id),
            },
    {
        match self.find(id) {
            Some(i) => {
                proof {
                    lemma_map_of_at(self.entries@, i as int);
                }
                Some(&self.entries[i].1)
            },
            None => {
                proof {
                    lemma_map_of_contains(self.entries@, id);
                }
                None
            },
        }
    }

    /// Replaces or inserts the value stored for `id`.
    pub fn set(&mut self, id: Id, value: V)
        requires
            old(self).wf(),
        ensures
            final(self).wf(),
            final(self)@ == old(self)@.insert(id, value),
    {
        match self.find(id) {
            Some(i) => {
                proof {
                    lemma_map_of_update(self.entries@, i as int, value);
                }
                self.entries[i] = (id, value);
            },
            None => {
                proof {
                    lemma_map_of_push(self.entries@, id, value);
                }
                self.entries.push((id, value));
            },
        }
    }
}

impl<V: Copy> IdMap<V> {
    /// A table with the same contents, entry for entry.
    pub fn duplicate(&self) -> (r: IdMap<V>)
        requires
            self.wf(),
        ensures
            r.wf(),
            r@ == self@,
            r.spec_pairs() == self.spec_pairs(),
    {
        let n = self.entries.len();
        let mut out: Vec<(Id, V)> = Vec::new();
        let mut i: usize = 0;
        while i < n
            invariant
                n == self.entries@.len(),
                i <= n,
                out@ == self.entries@.take(i as int),
            decreases n - i,
        {
            let e = self.entries[i];
            out.push(e);
            proof {
                assert(out@ =~= self.entries@.take(i as int + 1));
            }
            i = i + 1;
        }
        proof {
            assert(out@ =~= self.entries@);
        }
        IdMap { entries: out }
    }

    /// The key/value pairs of the table, in insertion order.
    pub fn pairs(&self) -> (r: Vec<(Id, V)>)
        requires
            self.wf(),
        ensures
            r@ == self.spec_pairs(),
            distinct_keys(r@),
            map_of(r@) == self@,
    {
        let d = self.duplicate();
        d.entries
    }

    /// Builds a table by inserting the given pairs from first to last; a
    /// later pair with a repeated key overwrites the earlier one.
    pub fn from_pairs(pairs: &Vec<(Id, V)>) -> (r: IdMap<V>)
        ensures
            r.wf(),
            r@ == map_of(pairs@),
    {
        let n = pairs.len();
        let mut out = IdMap::new();
        let mut i: usize = 0;
        while i < n
            invariant
                n == pairs@.len(),
                i <= n,
                out.wf(),
                out@ == map_of(pairs@.take(i as int)),
            decreases n - i,
        {
            let e = pairs[i];
            out.set(e.0, e.1);
            proof {
                assert(pairs@.take(i as int + 1).drop_last() =~= pairs@.take(i as int));
                assert(pairs@.take(i as int + 1).last() == pairs@[i as int]);
            }
            i = i + 1;
        }
        proof {
            assert(pairs@.take(n as int) =~= pairs@);
        }
        out
    }
}

} // verus!
