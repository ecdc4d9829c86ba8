use crate::units::traits::FloatingPointUnit;
use vstd::prelude::*;

verus! {

/// Mass in kilograms, as a whole number of 10⁻³⁰ kg (finer than the other
/// quantities, so that energies convert to mass without loss).
#[derive(Clone, Copy, Debug, PartialEq, PartialOrd)]
pub struct Kilogram(pub i128);

/// Mass steps in one kilogram.
pub const KILOGRAM_SCALE: i128 = 1_000_000_000_000_000_000_000_000_000_000;

impl Kilogram {
    /// A mass from its raw value, in steps of 10⁻³⁰ kg.
    pub fn new(inner: i128) -> (r: Self)
        ensures
            r.0 == inner,
    {
        Kilogram(inner)
    }

    /// The raw value, in steps of 10⁻³⁰ kg.
    pub fn inner(&self) -> (r: i128)
        ensures
            r == self.0,
    {
        self.0
    }

    /// Zero kilograms.
    pub fn zero() -> (r: Self)
        ensures
            r.0 == 0,
    {
        Kilogram(0)
    }

    /// One kilogram.
    pub fn one() -> (r: Self)
        ensures
            r.0 == KILOGRAM_SCALE,
    {
        Kilogram(KILOGRAM_SCALE)
    }

    /// Sum of two masses.
    pub fn add(self, b: Self) -> (r: Self)
        requires
            i128::MIN <= self.0 + b.0 <= i128::MAX,
        ensures
            r.0 == self.0 + b.0,
    {
        Kilogram(self.0 + b.0)
    }

    /// Difference of two masses.
    pub fn sub(self, b: Self) -> (r: Self)
        requires
            i128::MIN <= self.0 - b.0 <= i128::MAX,
        ensures
            r.0 == self.0 - b.0,
    {
        Kilogram(self.0 - b.0)
    }
}

/// Mass in grams.
#[derive(Clone, Copy, Debug, PartialEq, PartialOrd)]
pub struct Gram(pub i128);

impl FloatingPointUnit for Gram {
    open spec fn raw(&self) -> int {
        self.0 as int
    }

    fn new(inner: i128) -> (r: Self) {
        Gram(inner)
    }

    fn inner(&self) -> (r: i128) {
        self.0
    }
}

} // verus!

verus! {

impl From<Kilogram> for crate::units::energy::Joule {
    /// The energy equivalent to a mass, m c², rounded to the nearest energy
    /// step.
    fn from(mass: Kilogram) -> (r: crate::units::energy::Joule) {
        crate::utils::mass_to_energy(mass)
    }
}

impl vstd::std_specs::convert::FromSpecImpl<Kilogram> for crate::units::energy::Joule {
    open spec fn obeys_from_spec() -> bool {
        true
    }

    open spec fn from_spec(v: Kilogram) -> crate::units::energy::Joule {
        crate::units::energy::Joule(crate::utils::energy_of_mass(v.0 as int) as i128)
    }
}

} // verus!
