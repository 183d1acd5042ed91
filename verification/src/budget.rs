//! The shared CPU budget: tasks take a share of it while they run and give
//! it back when they finish; the share in use never exceeds the budget.

use vstd::prelude::*;
use crate::scheduler::admits;

verus! {

/// CPU in use after asking for `cost` more: granted when it fits within
/// `budget`, otherwise unchanged.
pub open spec fn usage_after_acquire(usage: nat, cost: nat, budget: nat) -> nat {
    if usage + cost <= budget {
        usage + cost
    } else {
        usage
    }
}

/// CPU in use after giving back `cost`; giving back more than is in use
/// leaves nothing in use.
pub open spec fn usage_after_release(usage: nat, cost: nat) -> nat {
    if cost <= usage {
        (usage - cost) as nat
    } else {
        0
    }
}

/// The CPU in use out of a fixed budget.
pub struct CpuBudget {
    usage: usize,
    budget: usize,
}

impl CpuBudget {
    #[verifier::type_invariant]
    spec fn inv(self) -> bool {
        self.usage <= self.budget
    }

    /// The CPU share in use now.
    pub closed spec fn usage(&self) -> nat {
        self.usage as nat
    }

    /// The most CPU that may be in use at once.
    pub closed spec fn budget(&self) -> nat {
        self.budget as nat
    }

    /// A budget of `budget` with nothing in use.
    pub fn new(budget: usize) -> (b: CpuBudget)
        ensures
            b.usage() == 0,
            b.budget() == budget,
    {
        CpuBudget { usage: 0, budget }
    }

    /// The CPU share in use now, which never exceeds the budget.
    pub fn current_usage(&self) -> (u: usize)
        ensures
            u == self.usage(),
            u <= self.budget(),
    {
        proof {
            use_type_invariant(self);
        }
        self.usage
    }

    /// Admission control: takes `cost` of the budget when the share in use
    /// plus `cost` fits within it, and says whether it did.
    pub fn try_acquire(&mut self, cost: usize) -> (granted: bool)
        ensures
            granted == (old(self).usage() + cost <= old(self).budget()),
            final(self).usage() == usage_after_acquire(old(self).usage(), cost as nat, old(self).budget()),
            final(self).budget() == old(self).budget(),
            final(self).usage() <= final(self).budget(),
            granted ==> final(self).usage() == old(self).usage() + cost,
            !granted ==> final(self).usage() == old(self).usage(),
    {
        proof {
            use_type_invariant(&*self);
        }
        if admits(self.usage, cost, self.budget) {
            self.usage = self.usage + cost;
            true
        } else {
            false
        }
    }

    /// Gives back `cost` of the budget once a task is done.
    pub fn release(&mut self, cost: usize)
        ensures
            final(self).usage() == usage_after_release(old(self).usage(), cost as nat),
            final(self).budget() == old(self).budget(),
            final(self).usage() <= final(self).budget(),
            cost <= old(self).usage() ==> final(self).usage() + cost == old(self).usage(),
            cost > old(self).usage() ==> final(self).usage() == 0,
    {
        proof {
            use_type_invariant(&*self);
        }
        if cost <= self.usage {
            self.usage = self.usage - cost;
        } else {
            self.usage = 0;
        }
    }
}

/// A granted request charges exactly its cost and a refused one nothing;
/// a release gives back exactly its cost when that much is in use.
pub proof fn lemma_acquire_charges_cost(usage: nat, cost: nat, budget: nat)
    ensures
        usage + cost <= budget ==> usage_after_acquire(usage, cost, budget) == usage + cost,
        usage + cost > budget ==> usage_after_acquire(usage, cost, budget) == usage,
        cost <= usage ==> usage_after_release(usage, cost) + cost == usage,
        cost > usage ==> usage_after_release(usage, cost) == 0,
{
}

/// Giving back a share just granted restores the use before it, and a
/// refused request changes nothing.
pub proof fn lemma_acquire_then_release(usage: nat, cost: nat, budget: nat)
    ensures
        usage + cost <= budget ==> usage_after_release(usage_after_acquire(usage, cost, budget), cost)
            == usage,
        usage + cost > budget ==> usage_after_acquire(usage, cost, budget) == usage,
        usage <= budget ==> usage_after_acquire(usage, cost, budget) <= budget,
{
}

} // verus!
