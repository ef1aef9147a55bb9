//! A set of widget identities, used for frame visibility tracking.
//!
//! Backed by a vector without duplicates; its mathematical content is the
//! `Set` of the elements. The store keeps two of these: the windows visible
//! in the previous completed frame and those visible so far in the frame
//! being built.

use vstd::prelude::*;
use crate::id::Id;

verus! {

/// Appending an element to a duplicate-free sequence inserts it into the
/// sequence's set of elements.
proof fn lemma_to_set_push(s: Seq<Id>, id: Id)
    ensures
        s.push(id).to_set() == s.to_set().insert(id),
{
    assert forall|x: Id| s.push(id).to_set().contains(x) implies s.to_set().insert(id).contains(
        x,
    ) by {
        let i = choose|i: int| 0 <= i < s.push(id).len() && s.push(id)[i] == x;
        if i < s.len() {
            assert(s[i] == x);
        }
    }
    assert forall|x: Id| s.to_set().insert(id).contains(x) implies s.push(id).to_set().contains(
        x,
    ) by {
        if s.contains(x) {
            let i = choose|i: int| 0 <= i < s.len() && s[i] == x;
            assert(s.push(id)[i] == x);
        } else {
            assert(s.push(id)[s.len() as int] == x);
        }
    }
    assert(s.push(id).to_set() =~= s.to_set().insert(id));
}

/// A set of widget identities.
pub struct IdSet {
    items: Vec<Id>,
}

impl View for IdSet {
    type V = Set<Id>;

    closed spec fn view(&self) -> Set<Id> {
        self.items@.to_set()
    }
}

impl IdSet {
    /// Internal consistency: no identity is stored twice.
    pub closed spec fn wf(self) -> bool {
        self.items@.no_duplicates()
    }

    /// The stored identities, for iteration by callers outside the store.
    pub closed spec fn spec_items(self) -> Seq<Id> {
        self.items@
    }

    /// An empty set.
    pub fn new() -> (r: IdSet)
        ensures
            r.wf(),
            r@ == Set::<Id>::empty(),
            r.spec_items() == Seq::<Id>::empty(),
    {
        let r = IdSet { items: Vec::new() };
        proof {
            assert(r.items@.to_set() =~= Set::<Id>::empty());
        }
        r
    }

    /// Whether `id` is a member.
    pub fn contains(&self, id: Id) -> (r: bool)
        ensures
            r == self@.contains(id),
    {
        let n = self.items.len();
        let mut i: usize = 0;
        while i < n
            invariant
                n == self.items@.len(),
                i <= n,
                forall|j: int| 0 <= j < i ==> self.items@[j] != id,
            decreases n - i,
        {
            if self.items[i] == id {
                return true;
            }
            i = i + 1;
        }
        false
    }

    /// Adds `id` to the set; a member is left as it is.
    pub fn insert(&mut self, id: Id)
        requires
            old(self).wf(),
        ensures
            final(self).wf(),
            final(self)@ == old(self)@.insert(id),
    {
        if !self.contains(id) {
            proof {
                lemma_to_set_push(self.items@, id);
            }
            self.items.push(id);
        } else {
            proof {
                assert(self@ =~= self@.insert(id));
            }
        }
    }

    /// A set with the same members.
    pub fn duplicate(&self) -> (r: IdSet)
        requires
            self.wf(),
        ensures
            r.wf(),
            r@ == self@,
            r.spec_items() == self.spec_items(),
    {
        let n = self.items.len();
        let mut out: Vec<Id> = Vec::new();
        let mut i: usize = 0;
        while i < n
            invariant
                n == self.items@.len(),
                i <= n,
                out@ == self.items@.take(i as int),
            decreases n - i,
        {
            let e = self.items[i];
            out.push(e);
            proof {
                assert(out@ =~= self.items@.take(i as int + 1));
            }
            i = i + 1;
        }
        proof {
            assert(out@ =~= self.items@);
        }
        IdSet { items: out }
    }

    /// The members of the set, one each, in insertion order.
    pub fn members(&self) -> (r: Vec<Id>)
        requires
            self.wf(),
        ensures
            r@ == self.spec_items(),
            r@.no_duplicates(),
            r@.to_set() == self@,
    {
        let d = self.duplicate();
        d.items
    }

    /// Builds a set of the given identities; repeats are stored once.
    pub fn from_members(ids: &Vec<Id>) -> (r: IdSet)
        ensures
            r.wf(),
            r@ == ids@.to_set(),
    {
        let n = ids.len();
        let mut out = IdSet::new();
        let mut i: usize = 0;
        while i < n
            invariant
                n == ids@.len(),
                i <= n,
                out.wf(),
                out@ == ids@.take(i as int).to_set(),
            decreases n - i,
        {
            out.insert(ids[i]);
            proof {
                lemma_to_set_push(ids@.take(i as int), ids@[i as int]);
                assert(ids@.take(i as int).push(ids@[i as int]) =~= ids@.take(i as int + 1));
            }
            i = i + 1;
        }
        proof {
            assert(ids@.take(n as int) =~= ids@);
        }
        out
    }
}

} // verus!
