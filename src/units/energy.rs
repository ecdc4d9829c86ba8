use crate::units::traits::FloatingPointUnit;
use vstd::prelude::*;

verus! {

/// Energy in joules.
#[derive(Clone, Copy, Debug, PartialEq, PartialOrd)]
pub struct Joule(pub i128);

impl FloatingPointUnit for Joule {
    open spec fn raw(&self) -> int {
        self.0 as int
    }

    fn new(inner: i128) -> (r: Self) {
        Joule(inner)
    }

    fn inner(&self) -> (r: i128) {
        self.0
    }
}

/// Energy (or rest mass) in electronvolts.
#[derive(Clone, Copy, Debug, PartialEq, PartialOrd)]
pub struct eV(pub i128);

impl FloatingPointUnit for eV {
    open spec fn raw(&self) -> int {
        self.0 as int
    }

    fn new(inner: i128) -> (r: Self) {
        eV(inner)
    }

    fn inner(&self) -> (r: i128) {
        self.0
    }
}

} // verus!
