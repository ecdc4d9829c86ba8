use vstd::prelude::*;

verus! {

/// Why a quantity or a cosmology could not be built.
#[derive(Debug, Clone, Copy, PartialEq, Eq, Structural)]
pub enum CosmoError {
    /// A negative value was given for a quantity that cannot be negative.
    InvalidValue,
    /// The baryon fraction exceeds the matter fraction.
    InvalidCosmology,
    /// The whole part of the effective neutrino count differs from the number
    /// of neutrino masses.
    NeutrinoCountMismatch,
    /// A parameter lies outside the range over which the fixed-point
    /// computations of this crate cannot overflow.
    OutOfRange,
}

} // verus!
