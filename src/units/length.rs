use crate::units::traits::FloatingPointUnit;
use vstd::prelude::*;

verus! {

/// Length in meters.
#[derive(Clone, Copy, Debug, PartialEq, PartialOrd)]
pub struct Meter(pub i128);

impl FloatingPointUnit for Meter {
    open spec fn raw(&self) -> int {
        self.0 as int
    }

    fn new(inner: i128) -> (r: Self) {
        Meter(inner)
    }

    fn inner(&self) -> (r: i128) {
        self.0
    }
}

/// Length in kilometers.
#[derive(Clone, Copy, Debug, PartialEq, PartialOrd)]
pub struct Kilometer(pub i128);

impl FloatingPointUnit for Kilometer {
    open spec fn raw(&self) -> int {
        self.0 as int
    }

    fn new(inner: i128) -> (r: Self) {
        Kilometer(inner)
    }

    fn inner(&self) -> (r: i128) {
        self.0
    }
}

/// Length in megaparsecs.
#[derive(Clone, Copy, Debug, PartialEq, PartialOrd)]
pub struct Mpc(pub i128);

impl FloatingPointUnit for Mpc {
    open spec fn raw(&self) -> int {
        self.0 as int
    }

    fn new(inner: i128) -> (r: Self) {
        Mpc(inner)
    }

    fn inner(&self) -> (r: i128) {
        self.0
    }
}

} // verus!

verus! {

/// Meters in a kilometer.
pub const KILOMETER_TO_METER: i128 = 1_000;

/// Meters in a megaparsec.
pub const MPC_TO_METERS: i128 = 30_860_000_000_000_000_000_000;

/// Kilometers in a megaparsec.
pub const MPC_TO_KILOMETERS: i128 = 30_860_000_000_000_000_000;

impl Meter {
    /// The same length in meters.
    pub fn from_kilometers(km: Kilometer) -> (r: Meter)
        requires
            i128::MIN <= km.0 * KILOMETER_TO_METER <= i128::MAX,
        ensures
            r.0 == km.0 * KILOMETER_TO_METER,
    {
        Meter(km.0 * KILOMETER_TO_METER)
    }

    /// The same length in meters.
    pub fn from_mpc(mpc: Mpc) -> (r: Meter)
        requires
            i128::MIN <= mpc.0 * MPC_TO_METERS <= i128::MAX,
        ensures
            r.0 == mpc.0 * MPC_TO_METERS,
    {
        Meter(mpc.0 * MPC_TO_METERS)
    }
}

impl Kilometer {
    /// The same length in kilometers.
    pub fn from_mpc(mpc: Mpc) -> (r: Kilometer)
        requires
            i128::MIN <= mpc.0 * MPC_TO_KILOMETERS <= i128::MAX,
        ensures
            r.0 == mpc.0 * MPC_TO_KILOMETERS,
    {
        Kilometer(mpc.0 * MPC_TO_KILOMETERS)
    }
}

} // verus!
