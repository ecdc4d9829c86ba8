use crate::units::traits::FloatingPointUnit;
use vstd::prelude::*;

verus! {

/// A dimensionless ratio of either sign.
#[derive(Clone, Copy, Debug, PartialEq, PartialOrd)]
pub struct DimensionlessFloat(pub i128);

impl FloatingPointUnit for DimensionlessFloat {
    open spec fn raw(&self) -> int {
        self.0 as int
    }

    fn new(inner: i128) -> (r: Self) {
        DimensionlessFloat(inner)
    }

    fn inner(&self) -> (r: i128) {
        self.0
    }
}

} // verus!
