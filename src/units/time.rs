use crate::units::traits::FloatingPointUnit;
use vstd::prelude::*;

verus! {

/// Time in seconds.
#[derive(Clone, Copy, Debug, PartialEq, PartialOrd)]
pub struct Seconds(pub i128);

impl FloatingPointUnit for Seconds {
    open spec fn raw(&self) -> int {
        self.0 as int
    }

    fn new(inner: i128) -> (r: Self) {
        Seconds(inner)
    }

    fn inner(&self) -> (r: i128) {
        self.0
    }
}

/// Time in gigayears.
#[derive(Clone, Copy, Debug, PartialEq, PartialOrd)]
pub struct Gyr(pub i128);

impl FloatingPointUnit for Gyr {
    open spec fn raw(&self) -> int {
        self.0 as int
    }

    fn new(inner: i128) -> (r: Self) {
        Gyr(inner)
    }

    fn inner(&self) -> (r: i128) {
        self.0
    }
}

} // verus!

verus! {

/// Seconds in a year.
pub const SECONDS_PER_YR: i128 = 31_540_000;

/// Seconds in a gigayear.
pub const SECONDS_PER_GYR: i128 = 31_540_000_000_000_000;

impl From<Seconds> for Gyr {
    /// The same time in gigayears, rounded down.
    fn from(seconds: Seconds) -> (r: Gyr) {
        Gyr(crate::fixed::floor_div(seconds.0, SECONDS_PER_GYR))
    }
}

impl vstd::std_specs::convert::FromSpecImpl<Seconds> for Gyr {
    open spec fn obeys_from_spec() -> bool {
        true
    }

    open spec fn from_spec(v: Seconds) -> Gyr {
        Gyr((v.0 as int / SECONDS_PER_GYR as int) as i128)
    }
}

} // verus!
