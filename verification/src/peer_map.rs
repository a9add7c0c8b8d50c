//! A table keyed by peer id.

use crate::hash::MultihashView;
use crate::peer_id::PeerId;
use vstd::prelude::*;

verus! {

/// A table from peer ids to values of type `V`, each peer at most once.
///
/// Its view is the map from the peers' hashes to their values.
pub struct PeerMap<V> {
    entries: Vec<(PeerId, V)>,
}

impl<V> View for PeerMap<V> {
    type V = Map<MultihashView, V>;

    closed spec fn view(&self) -> Map<MultihashView, V> {
        Map::new(
            |peer: MultihashView| Self::holds(self.entries@, peer),
            |peer: MultihashView| self.entries@[Self::place(self.entries@, peer)].1,
        )
    }
}

impl<V> PeerMap<V> {
    #[verifier::type_invariant]
    spec fn inv(&self) -> bool {
        Self::distinct(self.entries@)
    }

    /// No peer stands at two places.
    spec fn distinct(entries: Seq<(PeerId, V)>) -> bool {
        forall|i: int, j: int|
            0 <= i < j < entries.len() ==> (#[trigger] entries[i]).0@ != (#[trigger] entries[j]).0@
    }

    /// Whether some entry belongs to `peer`.
    spec fn holds(entries: Seq<(PeerId, V)>, peer: MultihashView) -> bool {
        exists|i: int| 0 <= i < entries.len() && (#[trigger] entries[i]).0@ == peer
    }

    /// A place at which `peer` stands, where it stands anywhere.
    spec fn place(entries: Seq<(PeerId, V)>, peer: MultihashView) -> int {
        choose|i: int| 0 <= i < entries.len() && (#[trigger] entries[i]).0@ == peer
    }

    /// With distinct peers, the place of a peer is the one place it stands at.
    proof fn lemma_place(entries: Seq<(PeerId, V)>, i: int)
        requires
            Self::distinct(entries),
            0 <= i < entries.len(),
        ensures
            Self::holds(entries, entries[i].0@),
            Self::place(entries, entries[i].0@) == i,
    {
        let peer = entries[i].0@;
        assert(Self::holds(entries, peer));
        let j = Self::place(entries, peer);
        assert(0 <= j < entries.len() && entries[j].0@ == peer);
        if j < i {
            assert(entries[j].0@ != entries[i].0@);
        } else if i < j {
            assert(entries[i].0@ != entries[j].0@);
        }
    }

    /// The empty table.
    pub fn new() -> (table: PeerMap<V>)
        ensures
            table@ == Map::<MultihashView, V>::empty(),
    {
        let table = PeerMap { entries: Vec::new() };
        assert(table@ =~= Map::<MultihashView, V>::empty());
        table
    }

    /// Where `peer` stands, if anywhere.
    fn find(&self, peer: &PeerId) -> (found: Option<usize>)
        ensures
            match found {
                Some(i) => i < self.entries@.len() && self.entries@[i as int].0@ == peer@,
                None => !Self::holds(self.entries@, peer@),
            },
    {
        let mut i: usize = 0;
        while i < self.entries.len()
            invariant
                i <= self.entries@.len(),
                forall|j: int| 0 <= j < i ==> (#[trigger] self.entries@[j]).0@ != peer@,
            decreases self.entries@.len() - i,
        {
            if self.entries[i].0.same(peer) {
                return Some(i);
            }
            i += 1;
        }
        None
    }

    /// Whether the table has an entry for `peer`.
    pub fn contains_key(&self, peer: &PeerId) -> (found: bool)
        ensures
            found == self@.contains_key(peer@),
    {
        self.find(peer).is_some()
    }

    /// Sets the value of `peer`, and returns the value it had.
    pub fn insert(&mut self, peer: PeerId, value: V) -> (before: Option<V>)
        ensures
            final(self)@ == old(self)@.insert(peer@, value),
            before == if old(self)@.contains_key(peer@) {
                Some(old(self)@[peer@])
            } else {
                None
            },
    {
        proof {
            use_type_invariant(&*self);
        }
        let ghost entries = self.entries@;
        let ghost key = peer@;
        match self.find(&peer) {
            Some(i) => {
                proof {
                    Self::lemma_place(entries, i as int);
                }
                let mut changed: Vec<(PeerId, V)> = Vec::new();
                std::mem::swap(&mut self.entries, &mut changed);
                let mut taken = (peer, value);
                std::mem::swap(&mut changed[i], &mut taken);
                proof {
                    let after = changed@;
                    assert forall|a: int| 0 <= a < after.len() implies (#[trigger] after[a]).0@
                        == entries[a].0@ by {}
                    assert(Self::distinct(after));
                    assert forall|p: MultihashView| Self::holds(after, p) == Self::holds(
                        entries,
                        p,
                    ) by {
                        if Self::holds(after, p) {
                            let a = Self::place(after, p);
                            assert(entries[a].0@ == p);
                        }
                        if Self::holds(entries, p) {
                            let a = Self::place(entries, p);
                            assert(after[a].0@ == p);
                        }
                    }
                    assert forall|p: MultihashView| Self::holds(after, p) implies after[Self::place(
                        after,
                        p,
                    )].1 == (if p == key {
                        value
                    } else {
                        entries[Self::place(entries, p)].1
                    }) by {
                        let a = Self::place(after, p);
                        Self::lemma_place(after, a);
                        Self::lemma_place(entries, a);
                    }
                }
                std::mem::swap(&mut self.entries, &mut changed);
                assert(self@ =~= old(self)@.insert(key, value));
                Some(taken.1)
            },
            None => {
                let mut grown: Vec<(PeerId, V)> = Vec::new();
                std::mem::swap(&mut self.entries, &mut grown);
                grown.push((peer, value));
                proof {
                    let after = grown@;
                    let n = entries.len() as int;
                    assert forall|a: int| 0 <= a < n implies (#[trigger] after[a]) == entries[a] by {}
                    assert(after[n].0@ == key);
                    assert(Self::distinct(after)) by {
                        assert forall|a: int, b: int| 0 <= a < b < after.len() implies (
                        #[trigger] after[a]).0@ != (#[trigger] after[b]).0@ by {
                            if b == n {
                                assert(entries[a].0@ != key);
                            } else {
                                assert(entries[a].0@ != entries[b].0@);
                            }
                        }
                    }
                    assert forall|p: MultihashView| Self::holds(after, p) == (p == key
                        || Self::holds(entries, p)) by {
                        if Self::holds(after, p) {
                            let a = Self::place(after, p);
                            if a < n {
                                assert(entries[a].0@ == p);
                            }
                        }
                        if Self::holds(entries, p) {
                            let a = Self::place(entries, p);
                            assert(after[a].0@ == p);
                        }
                    }
                    assert forall|p: MultihashView| Self::holds(after, p) implies after[Self::place(
                        after,
                        p,
                    )].1 == (if p == key {
                        value
                    } else {
                        entries[Self::place(entries, p)].1
                    }) by {
                        let a = Self::place(after, p);
                        Self::lemma_place(after, a);
                        if a < n {
                            Self::lemma_place(entries, a);
                        }
                    }
                }
                std::mem::swap(&mut self.entries, &mut grown);
                assert(self@ =~= old(self)@.insert(key, value));
                None
            },
        }
    }

    /// Takes the entry of `peer` out of the table, and returns its value.
    pub fn remove(&mut self, peer: &PeerId) -> (before: Option<V>)
        ensures
            final(self)@ == old(self)@.remove(peer@),
            before == if old(self)@.contains_key(peer@) {
                Some(old(self)@[peer@])
            } else {
                None
            },
    {
        proof {
            use_type_invariant(&*self);
        }
        let ghost entries = self.entries@;
        let ghost key = peer@;
        match self.find(peer) {
            Some(i) => {
                proof {
                    Self::lemma_place(entries, i as int);
                }
                let mut shrunk: Vec<(PeerId, V)> = Vec::new();
                std::mem::swap(&mut self.entries, &mut shrunk);
                let taken = shrunk.remove(i);
                proof {
                    let after = shrunk@;
                    assert forall|a: int| 0 <= a < after.len() implies (#[trigger] after[a]) == (if a
                        < i {
                        entries[a]
                    } else {
                        entries[a + 1]
                    }) by {}
                    assert(Self::distinct(after)) by {
                        assert forall|a: int, b: int| 0 <= a < b < after.len() implies (
                        #[trigger] after[a]).0@ != (#[trigger] after[b]).0@ by {
                            let a0 = if a < i { a } else { a + 1 };
                            let b0 = if b < i { b } else { b + 1 };
                            assert(entries[a0].0@ != entries[b0].0@);
                        }
                    }
                    assert forall|p: MultihashView| Self::holds(after, p) == (p != key
                        && Self::holds(entries, p)) by {
                        if Self::holds(after, p) {
                            let a = Self::place(after, p);
                            let a0 = if a < i { a } else { a + 1 };
                            assert(entries[a0].0@ == p);
                            if a0 < i {
                                assert(entries[a0].0@ != entries[i as int].0@);
                            } else {
                                assert(entries[i as int].0@ != entries[a0].0@);
                            }
                        }
                        if p != key && Self::holds(entries, p) {
                            let a0 = Self::place(entries, p);
                            let a = if a0 < i { a0 } else { a0 - 1 };
                            assert(after[a].0@ == p);
                        }
                    }
                    assert forall|p: MultihashView| Self::holds(after, p) implies after[Self::place(
                        after,
                        p,
                    )].1 == entries[Self::place(entries, p)].1 by {
                        let a = Self::place(after, p);
                        let a0 = if a < i { a } else { a + 1 };
                        Self::lemma_place(after, a);
                        Self::lemma_place(entries, a0);
                    }
                }
                std::mem::swap(&mut self.entries, &mut shrunk);
                assert(self@ =~= old(self)@.remove(key));
                Some(taken.1)
            },
            None => {
                assert(self@ =~= old(self)@.remove(key));
                None
            },
        }
    }
}

impl<V: Copy> PeerMap<V> {
    /// The value of `peer`, if it has one.
    pub fn get(&self, peer: &PeerId) -> (value: Option<V>)
        ensures
            value == if self@.contains_key(peer@) {
                Some(self@[peer@])
            } else {
                None
            },
    {
        proof {
            use_type_invariant(self);
        }
        match self.find(peer) {
            Some(i) => {
                proof {
                    Self::lemma_place(self.entries@, i as int);
                }
                Some(self.entries[i].1)
            },
            None => None,
        }
    }
}

} // verus!
