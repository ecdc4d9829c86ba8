use crate::error::CosmoError;
use crate::fixed::SCALE;
use crate::units::DimensionlessFloat;
use vstd::prelude::*;

verus! {

/// Represents a collection of dimensionless density parameters.
pub struct OmegaFactors {
    /// Ratio of non-relativistic matter to critical density at `z=0`.
    pub Omega_M0: DimensionlessFloat,
    /// Ratio of dark energy density to critical density at `z=0`.
    pub Omega_DE0: DimensionlessFloat,
    /// Ratio of baryon density to critical density at `z=0`.
    pub Omega_b0: DimensionlessFloat,
}

impl OmegaFactors {
    /// All three fractions are non-negative and baryons are part of matter.
    pub open spec fn wf(&self) -> bool {
        &&& 0 <= self.Omega_b0.0 <= self.Omega_M0.0
        &&& 0 <= self.Omega_DE0.0
    }

    /// Density parameters from raw fixed-point fractions. More baryons than
    /// matter is refused first, then any negative fraction.
    pub fn new(Omega_M0: i128, Omega_DE0: i128, Omega_b0: i128) -> (r: Result<Self, CosmoError>)
        ensures
            Omega_b0 > Omega_M0 <==> r matches Err(CosmoError::InvalidCosmology),
            (Omega_b0 <= Omega_M0 && (Omega_M0 < 0 || Omega_DE0 < 0 || Omega_b0 < 0)) <==> r matches Err(
                CosmoError::InvalidValue,
            ),
            r matches Err(e) ==> (e == CosmoError::InvalidCosmology || e == CosmoError::InvalidValue),
            r matches Ok(o) ==> o.wf() && o.Omega_M0.0 == Omega_M0 && o.Omega_DE0.0 == Omega_DE0
                && o.Omega_b0.0 == Omega_b0,
    {
        if Omega_b0 > Omega_M0 {
            return Err(CosmoError::InvalidCosmology);
        }
        if Omega_M0 < 0 || Omega_DE0 < 0 || Omega_b0 < 0 {
            return Err(CosmoError::InvalidValue);
        }
        Ok(
            OmegaFactors {
                Omega_M0: DimensionlessFloat(Omega_M0),
                Omega_DE0: DimensionlessFloat(Omega_DE0),
                Omega_b0: DimensionlessFloat(Omega_b0),
            },
        )
    }

    /// Dark matter density at `z=0` is matter at `z=0` minus baryons at `z=0`.
    pub fn omega_dark_matter_density_0(&self) -> (r: DimensionlessFloat)
        requires
            i128::MIN <= self.Omega_M0.0 - self.Omega_b0.0 <= i128::MAX,
        ensures
            r.0 == self.Omega_M0.0 - self.Omega_b0.0,
    {
        DimensionlessFloat(self.Omega_M0.0 - self.Omega_b0.0)
    }

    /// Curvature density at `z=0` given densities of relativistic particles at `z=0`:
    /// one minus every other fraction.
    pub fn curvature_density_0(
        &self,
        omega_nu0: DimensionlessFloat,
        omega_gamma0: DimensionlessFloat,
    ) -> (r: DimensionlessFloat)
        requires
            i128::MIN <= SCALE - self.Omega_M0.0 <= i128::MAX,
            i128::MIN <= SCALE - self.Omega_M0.0 - self.Omega_DE0.0 <= i128::MAX,
            i128::MIN <= SCALE - self.Omega_M0.0 - self.Omega_DE0.0 - omega_nu0.0 <= i128::MAX,
            i128::MIN <= SCALE - self.Omega_M0.0 - self.Omega_DE0.0 - omega_nu0.0 - omega_gamma0.0
                <= i128::MAX,
        ensures
            r.0 == SCALE - self.Omega_M0.0 - self.Omega_DE0.0 - omega_nu0.0 - omega_gamma0.0,
    {
        DimensionlessFloat(SCALE - self.Omega_M0.0 - self.Omega_DE0.0 - omega_nu0.0 - omega_gamma0.0)
    }
}

} // verus!
