use crate::units::traits::FloatingPointUnit;
use vstd::prelude::*;

verus! {

/// Temperature in kelvin.
#[derive(Clone, Copy, Debug, PartialEq, PartialOrd)]
pub struct Kelvin(pub i128);

impl FloatingPointUnit for Kelvin {
    open spec fn raw(&self) -> int {
        self.0 as int
    }

    fn new(inner: i128) -> (r: Self) {
        Kelvin(inner)
    }

    fn inner(&self) -> (r: i128) {
        self.0
    }
}

} // verus!

verus! {

impl Default for Kelvin {
    /// Zero kelvin.
    fn default() -> (r: Self)
        ensures
            r.0 == 0,
    {
        Kelvin(0)
    }
}

} // verus!
