//! The byte budget of a session's inbox.

use crate::restored;
use vstd::prelude::*;

verus! {

/// Counts what the fragments in an inbox cost.
pub struct InboundBudget {
    budget: usize,
    charged: usize,
}

impl InboundBudget {
    /// What the fragments may cost together.
    pub closed spec fn budget(&self) -> nat {
        self.budget as nat
    }

    /// What the fragments in the inbox cost.
    pub closed spec fn charged(&self) -> nat {
        self.charged as nat
    }

    /// The budget is kept.
    pub open spec fn wf(&self) -> bool {
        self.charged() <= self.budget()
    }

    /// An inbox without fragments.
    pub fn new(budget: usize) -> (r: Self)
        ensures
            r.wf(),
            r.budget() == budget,
            r.charged() == 0,
    {
        InboundBudget { budget, charged: 0 }
    }

    /// Charges a fragment where it fits. Says whether it did.
    pub fn charge(&mut self, fragment: &Vec<u8>) -> (r: bool)
        requires
            old(self).wf(),
        ensures
            final(self).wf(),
            final(self).budget() == old(self).budget(),
            r == (old(self).charged() + restored::charge(fragment@) <= old(self).budget()),
            final(self).charged() == if r {
                old(self).charged() + restored::charge(fragment@)
            } else {
                old(self).charged()
            },
    {
        let cost: usize = if fragment.len() == 0 {
            1
        } else {
            fragment.len()
        };
        if cost <= self.budget - self.charged {
            self.charged += cost;
            true
        } else {
            false
        }
    }

    /// Gives back what a fragment cost once it was read.
    pub fn release(&mut self, fragment: &Vec<u8>)
        requires
            old(self).wf(),
            restored::charge(fragment@) <= old(self).charged(),
        ensures
            final(self).wf(),
            final(self).budget() == old(self).budget(),
            final(self).charged() == old(self).charged() - restored::charge(fragment@),
    {
        let cost: usize = if fragment.len() == 0 {
            1
        } else {
            fragment.len()
        };
        self.charged -= cost;
    }
}

} // verus!
