//! Redshift, the time-like coordinate of every query.
use crate::fixed::SCALE;
use crate::units::traits::FloatingPointUnit;
use vstd::prelude::*;

verus! {

/// Largest redshift the queries accept (raw): z = 1000.
pub const MAX_REDSHIFT: i128 = 1_000 * SCALE;

/// A dimensionless redshift z, fixed-point.
#[derive(Clone, Copy, Debug, PartialEq, PartialOrd)]
pub struct Redshift(pub i128);

impl Redshift {
    /// The redshift lies in the range the queries compute over: 0 <= z <= 1000.
    pub open spec fn in_range(&self) -> bool {
        0 <= self.0 <= MAX_REDSHIFT
    }
}

impl FloatingPointUnit for Redshift {
    open spec fn raw(&self) -> int {
        self.0 as int
    }

    fn new(inner: i128) -> (r: Self) {
        Redshift(inner)
    }

    fn inner(&self) -> (r: i128) {
        self.0
    }
}

} // verus!
