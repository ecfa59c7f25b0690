//! A growable set of small natural numbers, stored one bit per number. The
//! ACKNACK path uses it to carry the set of sequence numbers a reader has
//! negatively acknowledged.

use vstd::prelude::*;

verus! {

/// A set of natural numbers below `bound()`, one bit each.
#[derive(Debug)]
pub struct BitSet {
    bits: Vec<bool>,
}

impl BitSet {
    /// Numbers at or above this bound are never members.
    pub closed spec fn bound(self) -> int {
        self.bits@.len() as int
    }

    /// Membership of `n` in the set.
    pub closed spec fn contains_spec(self, n: int) -> bool {
        0 <= n < self.bits@.len() && self.bits@[n]
    }

    /// The members as a mathematical set of signed 64-bit values.
    pub open spec fn value_set(self) -> Set<i64> {
        Set::new(|v: i64| v >= 0 && self.contains_spec(v as int))
    }

    /// An empty set.
    pub fn new() -> (r: BitSet)
        ensures
            r.bound() == 0,
            forall|n: int| !r.contains_spec(n),
    {
        BitSet { bits: Vec::new() }
    }

    /// Adds `n` to the set, growing the bound as needed.
    pub fn insert(&mut self, n: usize)
        ensures
            final(self).contains_spec(n as int),
            forall|m: int| m != n ==> final(self).contains_spec(m) == old(self).contains_spec(m),
            final(self).bound() == if old(self).bound() >= n + 1 {
                old(self).bound()
            } else {
                (n + 1) as int
            },
    {
        while self.bits.len() <= n
            invariant
                forall|m: int| self.contains_spec(m) == old(self).contains_spec(m),
                self.bound() >= old(self).bound(),
                self.bound() <= n ==> self.bound() == if old(self).bound() >= n + 1 {
                    old(self).bound()
                } else {
                    self.bound()
                },
                old(self).bound() >= n + 1 ==> self.bound() == old(self).bound(),
                old(self).bound() < n + 1 ==> self.bound() <= n + 1,
            decreases n + 1 - self.bits.len(),
        {
            self.bits.push(false);
        }
        self.bits.set(n, true);
    }

    /// Membership test.
    pub fn contains(&self, n: usize) -> (r: bool)
        ensures
            r == self.contains_spec(n as int),
    {
        n < self.bits.len() && self.bits[n]
    }

    /// The current bound, for iteration over possible members.
    pub fn bound_usize(&self) -> (r: usize)
        ensures
            r == self.bound(),
    {
        self.bits.len()
    }
}

/// Every member of a bit set lies below its bound.
pub proof fn lemma_members_below_bound(b: BitSet)
    ensures
        forall|n: int| b.contains_spec(n) ==> 0 <= n < b.bound(),
{
}

} // verus!
