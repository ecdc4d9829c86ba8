use crate::fixed::SCALE;
use vstd::prelude::*;

verus! {

/// A physical quantity of one dimension, held as a fixed-point number.
///
/// Values of the same unit can be added and subtracted; nothing converts
/// between units implicitly.
pub trait FloatingPointUnit: Sized {
    /// The raw fixed-point value (the quantity times `SCALE`).
    spec fn raw(&self) -> int;

    /// Create the value from its raw fixed-point representation.
    fn new(inner: i128) -> (r: Self)
        ensures
            r.raw() == inner,
    ;

    /// Get the raw fixed-point value.
    fn inner(&self) -> (r: i128)
        ensures
            r == self.raw(),
    ;

    /// Get the zero value for this unit.
    fn zero() -> (r: Self)
        ensures
            r.raw() == 0,
    {
        Self::new(0)
    }

    /// Get the one value for this unit.
    fn one() -> (r: Self)
        ensures
            r.raw() == SCALE,
    {
        Self::new(SCALE)
    }

    /// Round the value down to a whole number of units.
    fn floor(&self) -> (r: i128)
        requires
            i128::MIN <= self.raw() <= i128::MAX,
        ensures
            r == self.raw() / (SCALE as int),
    {
        crate::fixed::floor_div(self.inner(), SCALE)
    }

    /// Sum of two values of this unit.
    fn add(self, b: Self) -> (r: Self)
        requires
            i128::MIN <= self.raw() + b.raw() <= i128::MAX,
        ensures
            r.raw() == self.raw() + b.raw(),
    {
        let x = self.inner();
        let y = b.inner();
        Self::new(x + y)
    }

    /// Difference of two values of this unit.
    fn sub(self, b: Self) -> (r: Self)
        requires
            i128::MIN <= self.raw() - b.raw() <= i128::MAX,
        ensures
            r.raw() == self.raw() - b.raw(),
    {
        let x = self.inner();
        let y = b.inner();
        Self::new(x - y)
    }
}

} // verus!
