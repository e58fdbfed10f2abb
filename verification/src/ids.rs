//! The allocator of proxy-side identifiers.

use vstd::prelude::*;

verus! {

/// Hands out the identifiers 1, 2, 3, ... up to a limit, each once.
pub struct IdGenerator {
    issued: u64,
    limit: u64,
}

impl IdGenerator {
    /// How many identifiers have been handed out. They are `1..=issued()`.
    pub closed spec fn issued(&self) -> nat {
        self.issued as nat
    }

    /// The largest identifier that will ever be handed out.
    pub closed spec fn limit(&self) -> nat {
        self.limit as nat
    }

    /// No more than `limit()` identifiers have been handed out.
    pub closed spec fn wf(&self) -> bool {
        self.issued <= self.limit
    }

    /// A generator that has handed out nothing and stops after `limit`.
    pub fn new(limit: u64) -> (generator: IdGenerator)
        ensures
            generator.wf(),
            generator.issued() == 0,
            generator.limit() == limit,
    {
        IdGenerator { issued: 0, limit }
    }

    /// The number of identifiers handed out so far.
    pub fn count(&self) -> (n: u64)
        ensures
            n == self.issued(),
    {
        self.issued
    }

    /// Whether every identifier up to the limit has been handed out.
    pub fn is_exhausted(&self) -> (b: bool)
        requires
            self.wf(),
        ensures
            b == (self.issued() == self.limit()),
    {
        self.issued == self.limit
    }

    /// Hands out the next identifier: one more than the last one, starting
    /// from 1. Returns `None`, and changes nothing, once the limit is reached.
    pub fn take_id(&mut self) -> (id: Option<u64>)
        requires
            old(self).wf(),
        ensures
            final(self).wf(),
            final(self).limit() == old(self).limit(),
            old(self).issued() < old(self).limit() ==> id == Some((old(self).issued() + 1) as u64)
                && final(self).issued() == old(self).issued() + 1,
            old(self).issued() == old(self).limit() ==> id is None && final(self).issued()
                == old(self).issued(),
    {
        if self.issued < self.limit {
            self.issued = self.issued + 1;
            Some(self.issued)
        } else {
            None
        }
    }
}

/// The identifier that the `k`-th call of `take_id` returns (counting from 0)
/// on a generator that has handed out `issued` identifiers, while the limit
/// is not reached.
pub open spec fn nth_id(issued: nat, k: nat) -> nat {
    issued + k + 1
}

/// What `take_id` does, as a step on the number of identifiers handed out.
pub open spec fn take_id_step(issued: nat, limit: nat) -> (Option<nat>, nat) {
    if issued < limit {
        (Some(issued + 1), issued + 1)
    } else {
        (None, issued)
    }
}

/// The number handed out after `k` calls of `take_id`.
pub open spec fn issued_after(issued: nat, limit: nat, k: nat) -> nat
    decreases k,
{
    if k == 0 {
        issued
    } else {
        take_id_step(issued_after(issued, limit, (k - 1) as nat), limit).1
    }
}

/// The result of the `k`-th call of `take_id` (counting from 0).
pub open spec fn id_of_call(issued: nat, limit: nat, k: nat) -> Option<nat> {
    take_id_step(issued_after(issued, limit, k), limit).0
}

/// The count after `k` calls: one more per call until the limit stops it.
pub proof fn lemma_issued_after(issued: nat, limit: nat, k: nat)
    requires
        issued <= limit,
    ensures
        issued_after(issued, limit, k) == if issued + k <= limit {
            issued + k
        } else {
            limit
        },
    decreases k,
{
    if k > 0 {
        lemma_issued_after(issued, limit, (k - 1) as nat);
    }
}

/// Fresh allocation: of any two calls of `take_id` on one generator that both
/// return an identifier, the later call returns the larger one. So the
/// output is strictly increasing, no identifier is handed out twice, and
/// none is one that was handed out before the first of the calls.
pub proof fn lemma_ids_strictly_increase(issued: nat, limit: nat, i: nat, j: nat)
    requires
        issued <= limit,
        i < j,
        id_of_call(issued, limit, i) is Some,
        id_of_call(issued, limit, j) is Some,
    ensures
        issued < id_of_call(issued, limit, i)->0 < id_of_call(issued, limit, j)->0,
        id_of_call(issued, limit, i)->0 == nth_id(issued, i),
{
    lemma_issued_after(issued, limit, i);
    lemma_issued_after(issued, limit, j);
}

/// Once a call of `take_id` returns `None`, every later call does.
pub proof fn lemma_exhaustion_is_final(issued: nat, limit: nat, i: nat, j: nat)
    requires
        issued <= limit,
        i <= j,
        id_of_call(issued, limit, i) is None,
    ensures
        id_of_call(issued, limit, j) is None,
{
    lemma_issued_after(issued, limit, i);
    lemma_issued_after(issued, limit, j);
}

} // verus!
