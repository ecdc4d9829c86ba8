//! Unit types: each dimension is a distinct type over a fixed-point value.
pub mod dimensionless;
pub mod energy;
pub mod length;
pub mod mass;
pub mod temperature;
pub mod time;
pub mod traits;

pub use dimensionless::DimensionlessFloat;
pub use traits::FloatingPointUnit;

use crate::error::CosmoError;
use crate::fixed::{floor_div, SCALE};
use vstd::prelude::*;

verus! {

/// Continuous positive quantities that are dimensionless (e.g. ratios like the omegas).
pub type DimensionlessPositiveFloat = PositiveFloat;

/// Hubble parameter, as a raw fixed-point value in km/s/Mpc.
pub type KmPerSecPerMpc = i128;

/// Hubble distance in h⁻¹ Mpc, as a raw fixed-point value.
pub type HInvMpc = i128;

/// Mass density, as a whole number of 10⁻³⁶ kg/m³ (a finer resolution than
/// the other quantities, since cosmological densities are of order 10⁻²⁶).
#[derive(Clone, Copy, Debug, PartialEq, PartialOrd)]
pub struct KilogramsPerMeter3(pub i128);

/// Speed, as a whole number of meters per second.
pub type MetersPerSecond = u128;

/// A continuous physical quantity that cannot be negative.
#[derive(Clone, Copy, Debug, PartialEq, PartialOrd)]
pub struct PositiveFloat(pub i128);

impl PositiveFloat {
    /// The quantity holds no negative value.
    pub open spec fn wf(&self) -> bool {
        self.0 >= 0
    }

    /// A non-negative quantity from its raw fixed-point value; negative values
    /// are refused.
    pub fn new(x: i128) -> (r: Result<Self, CosmoError>)
        ensures
            x < 0 <==> r == Err::<Self, CosmoError>(CosmoError::InvalidValue),
            x >= 0 <==> r == Ok::<Self, CosmoError>(PositiveFloat(x)),
    {
        if x < 0 {
            return Err(CosmoError::InvalidValue);
        }
        Ok(PositiveFloat(x))
    }

    /// Zero.
    pub fn zero() -> (r: Self)
        ensures
            r.0 == 0,
    {
        PositiveFloat(0)
    }

    /// One.
    pub fn one() -> (r: Self)
        ensures
            r.0 == SCALE,
    {
        PositiveFloat(SCALE)
    }

    /// The value rounded down to a whole number.
    pub fn floor(&self) -> (r: i128)
        ensures
            r == (self.0 as int) / (SCALE as int),
    {
        floor_div(self.0, SCALE)
    }

    /// Sum of two non-negative quantities.
    pub fn add(self, rhs: Self) -> (r: Self)
        requires
            self.0 + rhs.0 <= i128::MAX,
            self.wf(),
            rhs.wf(),
        ensures
            r.0 == self.0 + rhs.0,
            r.wf(),
    {
        PositiveFloat(self.0 + rhs.0)
    }

    /// Difference of two non-negative quantities, the second no larger than
    /// the first.
    pub fn sub(self, rhs: Self) -> (r: Self)
        requires
            rhs.wf(),
            rhs.0 <= self.0,
        ensures
            r.0 == self.0 - rhs.0,
            r.wf(),
    {
        PositiveFloat(self.0 - rhs.0)
    }
}

} // verus!
