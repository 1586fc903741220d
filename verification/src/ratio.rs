//! Shares as the two counts they are made of.

use vstd::prelude::*;

verus! {

/// A share, as the count of a part and the count of the whole.
#[derive(Clone, Copy, Debug, PartialEq, Eq, Structural)]
pub struct Ratio {
    pub numerator: u128,
    pub denominator: u128,
}

/// The share that is all of the whole.
pub open spec fn whole() -> Ratio {
    Ratio { numerator: 1, denominator: 1 }
}

/// The share that is nothing of the whole.
pub open spec fn nothing() -> Ratio {
    Ratio { numerator: 0, denominator: 1 }
}

} // verus!
