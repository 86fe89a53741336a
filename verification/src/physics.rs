//! Collision bookkeeping.
//!
//! The physics collaborator detects overlaps; this module only keeps the
//! per-pair state needed to deliver each `Started` and `Stopped` event
//! exactly once per overlap. A pair of entities is unordered: `(a, b)`
//! and `(b, a)` are the same key.

use vstd::prelude::*;

verus! {

/// Edge-triggered overlap notification between two entities, delivered
/// at most once per transition of the unordered pair.
#[derive(Clone, Copy, PartialEq, Eq, Structural, Debug)]
pub enum CollisionEvent {
    /// The two colliders started overlapping.
    Started(u64, u64),
    /// The two colliders stopped overlapping.
    Stopped(u64, u64),
}

/// An unordered pair of entity identifiers.
#[derive(Clone, Copy, Hash)]
pub struct EntityPair {
    pub entity1: u64,
    pub entity2: u64,
}

/// The pair with its two identifiers in ascending order.
pub open spec fn spec_norm(p: EntityPair) -> (u64, u64) {
    if p.entity1 <= p.entity2 {
        (p.entity1, p.entity2)
    } else {
        (p.entity2, p.entity1)
    }
}

impl EntityPair {
    /// Build the pair in normal form: the smaller identifier first, so
    /// that `(a, b)` and `(b, a)` construct the same value.
    pub fn new(entity1: u64, entity2: u64) -> (r: EntityPair)
        ensures
            r.entity1 <= r.entity2,
            (r.entity1, r.entity2) == spec_norm(EntityPair { entity1, entity2 }),
    {
        if entity1 < entity2 {
            return EntityPair { entity1, entity2 };
        }
        EntityPair { entity1: entity2, entity2: entity1 }
    }
}

impl PartialEq for EntityPair {
    /// Pairs compare as unordered: equal exactly when they hold the same
    /// two identifiers in either order.
    fn eq(&self, other: &Self) -> bool {
        (self.entity1 == other.entity1 && self.entity2 == other.entity2)
            || (self.entity1 == other.entity2 && self.entity2 == other.entity1)
    }
}

impl vstd::std_specs::cmp::PartialEqSpecImpl for EntityPair {
    open spec fn obeys_eq_spec() -> bool {
        true
    }

    open spec fn eq_spec(&self, other: &EntityPair) -> bool {
        spec_norm(*self) == spec_norm(*other)
    }
}

impl Eq for EntityPair {}

/// The set of entity pairs currently overlapping, each held exactly once.
pub struct Collisions {
    pub pairs: Vec<EntityPair>,
}

impl Collisions {
    /// Whether some held pair equals `p` as an unordered pair.
    pub open spec fn spec_contains(self, p: EntityPair) -> bool {
        exists|i: int| 0 <= i < self.pairs@.len() && spec_norm(self.pairs@[i]) == spec_norm(p)
    }

    /// No two held pairs are the same unordered pair.
    pub open spec fn wf(self) -> bool {
        forall|i: int, j: int|
            0 <= i < j < self.pairs@.len()
                ==> spec_norm(self.pairs@[i]) != spec_norm(self.pairs@[j])
    }

    pub fn new() -> (r: Collisions)
        ensures
            r.wf(),
            r.pairs@.len() == 0,
            forall|q: EntityPair| !r.spec_contains(q),
    {
        Collisions { pairs: Vec::new() }
    }

    /// Index of the held pair equal to `p`, if one is held.
    fn find(&self, p: &EntityPair) -> (r: Option<usize>)
        ensures
            match r {
                Some(i) => i < self.pairs@.len() && spec_norm(self.pairs@[i as int]) == spec_norm(*p),
                None => !self.spec_contains(*p),
            },
    {
        let n = self.pairs.len();
        let mut i: usize = 0;
        while i < n
            invariant
                n == self.pairs@.len(),
                0 <= i <= n,
                forall|k: int| 0 <= k < i ==> spec_norm(self.pairs@[k]) != spec_norm(*p),
            decreases n - i,
        {
            if self.pairs[i].eq(p) {
                return Some(i);
            }
            i = i + 1;
        }
        None
    }

    pub fn contains(&self, pair: &EntityPair) -> (r: bool)
        ensures
            r == self.spec_contains(*pair),
    {
        self.find(pair).is_some()
    }

    /// Record that `pair` overlaps. Holding it already changes nothing:
    /// the pairs form a set.
    pub fn add(&mut self, pair: EntityPair)
        requires
            old(self).wf(),
        ensures
            final(self).wf(),
            forall|q: EntityPair|
                final(self).spec_contains(q)
                    == (old(self).spec_contains(q) || spec_norm(q) == spec_norm(pair)),
    {
        if self.find(&pair).is_none() {
            self.pairs.push(pair);
            proof {
                let s = self.pairs@;
                assert forall|q: EntityPair|
                    self.spec_contains(q)
                        == (old(self).spec_contains(q) || spec_norm(q) == spec_norm(pair)) by {
                    if old(self).spec_contains(q) {
                        let i = choose|i: int|
                            0 <= i < old(self).pairs@.len()
                                && spec_norm(old(self).pairs@[i]) == spec_norm(q);
                        assert(s[i] == old(self).pairs@[i]);
                    }
                    if spec_norm(q) == spec_norm(pair) {
                        assert(spec_norm(s[s.len() - 1]) == spec_norm(q));
                    }
                    if self.spec_contains(q) {
                        let i = choose|i: int|
                            0 <= i < s.len() && spec_norm(s[i]) == spec_norm(q);
                        if i < s.len() - 1 {
                            assert(old(self).pairs@[i] == s[i]);
                        }
                    }
                }
            }
        }
    }

    /// Forget `pair`: afterwards the set holds every previous pair but
    /// the one equal to `pair`.
    pub fn remove(&mut self, pair: &EntityPair)
        requires
            old(self).wf(),
        ensures
            final(self).wf(),
            forall|q: EntityPair|
                final(self).spec_contains(q)
                    == (old(self).spec_contains(q) && spec_norm(q) != spec_norm(*pair)),
    {
        let found = self.find(pair);
        match found {
            None => {
                proof {
                    assert forall|q: EntityPair|
                        self.spec_contains(q)
                            == (old(self).spec_contains(q) && spec_norm(q) != spec_norm(*pair)) by {
                        if self.spec_contains(q) && spec_norm(q) == spec_norm(*pair) {
                            assert(old(self).spec_contains(*pair));
                        }
                    }
                }
            },
            Some(i) => {
                let ghost prev = self.pairs@;
                self.pairs.remove(i);
                proof {
                    let s = self.pairs@;
                    assert forall|q: EntityPair|
                        self.spec_contains(q)
                            == (old(self).spec_contains(q) && spec_norm(q) != spec_norm(*pair)) by {
                        if self.spec_contains(q) {
                            let k = choose|k: int|
                                0 <= k < s.len() && spec_norm(s[k]) == spec_norm(q);
                            if k < i {
                                assert(prev[k] == s[k]);
                            } else {
                                assert(prev[k + 1] == s[k]);
                            }
                        }
                        if old(self).spec_contains(q) && spec_norm(q) != spec_norm(*pair) {
                            let k = choose|k: int|
                                0 <= k < prev.len() && spec_norm(prev[k]) == spec_norm(q);
                            if k < i {
                                assert(s[k] == prev[k]);
                            } else {
                                assert(k > i);
                                assert(s[k - 1] == prev[k]);
                            }
                        }
                    }
                }
            },
        }
    }
}

} // verus!
