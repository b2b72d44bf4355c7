//! The activation layers. None of them has trainable parameters, so a value
//! of each type carries no state: every value of a type equals every other.

use vstd::prelude::*;

verus! {

/// Rectified-linear activation: passes positive inputs and zeroes the rest.
#[derive(Debug, Clone, Copy, PartialEq, Eq, Structural)]
pub struct ReLULayer {}

impl ReLULayer {
    pub fn new() -> (r: Self)
        ensures
            r == (ReLULayer {  }),
    {
        ReLULayer {  }
    }
}

/// Logistic activation: squashes each input into the open interval from 0 to 1.
#[derive(Debug, Clone, Copy, PartialEq, Eq, Structural)]
pub struct SigmodLayer {}

impl SigmodLayer {
    pub fn new() -> (r: Self)
        ensures
            r == (SigmodLayer {  }),
    {
        SigmodLayer {  }
    }
}

/// Normalised-exponential activation, meant as the last layer under a
/// cross-entropy loss.
#[derive(Debug, Clone, Copy, PartialEq, Eq, Structural)]
pub struct SoftmaxLayer {}

impl SoftmaxLayer {
    pub fn new() -> (r: Self)
        ensures
            r == (SoftmaxLayer {  }),
    {
        SoftmaxLayer {  }
    }
}

} // verus!
