//! Running statistics of a classifier: how many predictions were seen and
//! how many of them named the labelled class.

use vstd::prelude::*;

verus! {

/// Accuracy counter of the cross-entropy loss. Between two resets it counts
/// the predictions recorded and, among them, the correct ones.
pub struct CrossEntropy {
    acc: usize,
    total: usize,
}

impl CrossEntropy {
    /// Number of correct predictions recorded since the last reset.
    pub closed spec fn hits(&self) -> nat {
        self.acc as nat
    }

    /// Number of predictions recorded since the last reset.
    pub closed spec fn samples(&self) -> nat {
        self.total as nat
    }

    #[verifier::type_invariant]
    spec fn consistent(&self) -> bool {
        self.acc <= self.total
    }

    /// A counter that has seen nothing.
    pub fn new() -> (r: Self)
        ensures
            r.hits() == 0,
            r.samples() == 0,
    {
        CrossEntropy { acc: 0, total: 0 }
    }

    /// Records one prediction; `hit` says whether the class with the largest
    /// score is the labelled one.
    pub fn sum_loss(&mut self, hit: bool)
        requires
            old(self).samples() < usize::MAX,
        ensures
            final(self).samples() == old(self).samples() + 1,
            final(self).hits() == old(self).hits() + if hit { 1nat } else { 0nat },
    {
        proof {
            use_type_invariant(&*self);
        }
        if hit {
            *self = CrossEntropy { acc: self.acc + 1, total: self.total + 1 };
        } else {
            *self = CrossEntropy { acc: self.acc, total: self.total + 1 };
        }
    }

    /// Number of correct predictions recorded since the last reset: never
    /// more than were recorded.
    pub fn acc(&self) -> (r: usize)
        ensures
            r == self.hits(),
            self.hits() <= self.samples(),
    {
        proof {
            use_type_invariant(self);
        }
        self.acc
    }

    /// Number of predictions recorded since the last reset: never fewer than
    /// were correct.
    pub fn total(&self) -> (r: usize)
        ensures
            r == self.samples(),
            self.hits() <= self.samples(),
    {
        proof {
            use_type_invariant(self);
        }
        self.total
    }

    /// Forgets everything recorded.
    pub fn reset(&mut self)
        ensures
            final(self).hits() == 0,
            final(self).samples() == 0,
    {
        *self = CrossEntropy { acc: 0, total: 0 };
    }
}

} // verus!
