//! Amounts of gas.
use vstd::prelude::*;

use crate::u512::U512;

verus! {

/// An amount of gas, a 512-bit number.
#[derive(Debug, Clone, Copy, PartialEq, Eq)]
pub struct Gas {
    value: U512,
}

impl Gas {
    /// The amount.
    pub closed spec fn spec_value(&self) -> nat {
        self.value.value()
    }

    /// Creates an amount of gas.
    pub fn new(value: U512) -> (g: Self)
        ensures
            g.spec_value() == value.value(),
    {
        Gas { value }
    }

    /// Returns the amount.
    pub fn value(&self) -> (v: U512)
        ensures
            v.value() == self.spec_value(),
    {
        self.value
    }
}

} // verus!
