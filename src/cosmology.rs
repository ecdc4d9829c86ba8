//! The FLRW cosmology model: density parameters, the expansion function and
//! temperature evolution.
mod omega_factors;

pub use omega_factors::OmegaFactors;

use crate::constants::{
    default_neutrino_masses, photon_density, photon_density_spec, t_nu_to_t_gamma_ratio, C_M_PER_S,
    DEFAULT_N_EFF, G, PI,
};
use crate::error::CosmoError;
use crate::fixed::{
    div_fixed, fixed_div, fixed_mul, floor_cbrt, floor_sqrt, isqrt, lemma_fixed_div_bounds,
    lemma_fixed_mul_abs_le, lemma_fixed_mul_ge_one, lemma_fixed_mul_le, lemma_fixed_mul_one,
    lemma_floor_cbrt_unique, lemma_floor_sqrt_unique, lemma_sqrt_ge, lemma_sqrt_le, mul_fixed, SCALE,
};
use crate::redshift::{Redshift, MAX_REDSHIFT};
use crate::units::energy::eV;
use crate::units::length::{Mpc, KILOMETER_TO_METER, MPC_TO_KILOMETERS};
use crate::units::temperature::Kelvin;
use crate::units::time::Seconds;
use crate::units::{
    DimensionlessFloat, DimensionlessPositiveFloat, HInvMpc, KilogramsPerMeter3, KmPerSecPerMpc,
    PositiveFloat,
};
use vstd::pervasive::unreached;
use vstd::prelude::*;

verus! {

/// Largest matter, dark-energy, photon or neutrino fraction (raw): 10.
pub const MAX_OMEGA: i128 = 10 * SCALE;

/// Smallest Hubble constant (raw): 10 km/s/Mpc.
pub const MIN_H0: i128 = 10 * SCALE;

/// Largest Hubble constant (raw): 10⁶ km/s/Mpc.
pub const MAX_H0: i128 = 1_000_000 * SCALE;

/// Largest CMB temperature today (raw): 1000 K.
pub const MAX_TEMPERATURE: i128 = 1_000 * SCALE;

/// Largest effective neutrino count (raw): 1000.
pub const MAX_N_EFF: i128 = 1_000 * SCALE;

/// Neutrino density per effective species relative to the photon density,
/// 7/8 · (4/11)^(4/3), fixed-point.
pub const NEUTRINO_FACTOR: i128 = 227_107_317_660;

/// Photon density today for a Hubble constant and CMB temperature (raw):
/// coefficient · T⁴ / H_0².
#[verifier::opaque]
pub open spec fn photon_density_of(H_0: int, t: int) -> int {
    let t2 = fixed_mul(t, t);
    fixed_div(fixed_mul(photon_density_spec(), fixed_mul(t2, t2)), fixed_mul(H_0, H_0))
}

/// Neutrino density today for an effective neutrino count and photon density
/// (raw).
#[verifier::opaque]
pub open spec fn neutrino_density_of(n_eff: int, omega_gamma0: int) -> int {
    fixed_mul(fixed_mul(NEUTRINO_FACTOR as int, n_eff), omega_gamma0)
}

/// Critical density today for a Hubble constant (in units of 10⁻³⁶ kg/m³):
/// 3 H_0² / (8 π G), with H_0 converted from km/s/Mpc to s⁻¹.
pub open spec fn critical_density_today(H_0: int) -> int {
    3 * fixed_mul(H_0, H_0) * 10_000_000_000 / (3086 * 3086 as int) * 10_000_000_000 / (8
        * PI as int) / (G as int)
}

/// The CMB temperature today, zero when none is given.
pub open spec fn temperature_or_zero(t: Option<Kelvin>) -> int {
    match t {
        Some(k) => k.0 as int,
        None => 0,
    }
}

/// Represents an FLRW cosmology.
///
/// This represents an homogenous and isotropic cosmology based
/// on the FLRW (Friedmann-Lemaitre-Robertson-Walker) metric.
pub struct FLRWCosmology {
    /// A descriptive name.
    pub name: Option<String>,
    /// Literature reference.
    pub reference: Option<String>,
    /// Hubble constant at `z=0` (km/(s/Mpc)), fixed-point.
    pub H_0: KmPerSecPerMpc,
    /// Base omega factors for this cosmology.
    pub omega: OmegaFactors,
    /// Omega curvature at z=0
    pub omega_k0: DimensionlessFloat,
    /// Omega gamma at z=0
    pub omega_gamma0: DimensionlessFloat,
    /// Omega nu at z=0
    pub omega_nu0: DimensionlessFloat,
    /// Total omega at z=0
    pub omega_tot0: DimensionlessFloat,
    /// Temperature of the CMB at `z=0`.
    pub T_CMB0: Option<Kelvin>,
    /// Number of effective neutrino species.
    pub N_eff: DimensionlessPositiveFloat,
    /// Mass of neutrino species in eV.
    pub m_nu: Vec<eV>,
}

impl FLRWCosmology {
    /// The parameters are valid and in range, and the derived densities are
    /// those the constructor computes.
    pub open spec fn wf(&self) -> bool {
        let m = self.omega.Omega_M0.0 as int;
        let de = self.omega.Omega_DE0.0 as int;
        let g = self.omega_gamma0.0 as int;
        let nu = self.omega_nu0.0 as int;
        &&& self.omega.wf()
        &&& m <= MAX_OMEGA
        &&& de <= MAX_OMEGA
        &&& 0 <= g <= MAX_OMEGA
        &&& 0 <= nu <= MAX_OMEGA
        &&& self.omega_k0.0 == SCALE - m - de - nu - g
        &&& self.omega_tot0.0 == m + g + nu + de + self.omega_k0.0
        &&& MIN_H0 <= self.H_0 <= MAX_H0
        &&& 0 <= temperature_or_zero(self.T_CMB0) <= MAX_TEMPERATURE
    }

    /// Whether the fields hold a valid cosmology (`wf`), for callers that
    /// build or change the fields themselves.
    pub fn is_well_formed(&self) -> (r: bool)
        ensures
            r == self.wf(),
    {
        let m = self.omega.Omega_M0.0;
        let de = self.omega.Omega_DE0.0;
        let b = self.omega.Omega_b0.0;
        let g = self.omega_gamma0.0;
        let nu = self.omega_nu0.0;
        let t = self.temperature_today();
        if !(0 <= b && b <= m && 0 <= de && m <= MAX_OMEGA && de <= MAX_OMEGA) {
            return false;
        }
        if !(0 <= g && g <= MAX_OMEGA && 0 <= nu && nu <= MAX_OMEGA) {
            return false;
        }
        if !(MIN_H0 <= self.H_0 && self.H_0 <= MAX_H0 && 0 <= t && t <= MAX_TEMPERATURE) {
            return false;
        }
        self.omega_k0.0 == SCALE - m - de - nu - g && self.omega_tot0.0 == m + g + nu + de
            + self.omega_k0.0
    }

    /// Instantiate a simple two component cosmology (matter and dark energy):
    /// baryon-free, so all matter is dark matter, with no radiation and no
    /// neutrinos.
    pub fn two_component(Omega_M0: i128, Omega_DE0: i128, H_0: i128) -> (r: Self)
        requires
            0 <= Omega_M0 <= MAX_OMEGA,
            0 <= Omega_DE0 <= MAX_OMEGA,
            MIN_H0 <= H_0 <= MAX_H0,
        ensures
            r.wf(),
            r.H_0 == H_0,
            r.omega.Omega_M0.0 == Omega_M0,
            r.omega.Omega_DE0.0 == Omega_DE0,
            r.omega.Omega_b0.0 == 0,
            r.omega_gamma0.0 == 0,
            r.omega_nu0.0 == 0,
            r.omega_k0.0 == SCALE - Omega_M0 - Omega_DE0,
            r.T_CMB0 == Some(Kelvin(0)),
            r.N_eff.0 == 0,
            r.m_nu@.len() == 0,
    {
        let omega = match OmegaFactors::new(Omega_M0, Omega_DE0, 0) {
            Ok(o) => o,
            Err(_) => unreached(),
        };
        proof {
            lemma_no_radiation(H_0 as int);
        }
        match Self::new(
            None,
            None,
            H_0,
            omega,
            Some(0),
            Some(PositiveFloat::zero()),
            Some(Vec::new()),
        ) {
            Ok(c) => c,
            Err(_) => unreached(),
        }
    }

    /// Instantiate a new FLRW cosmology.
    ///
    /// `N_eff` defaults to 3.04 and `m_nu` to three massless neutrinos; without
    /// a CMB temperature there is no photon or neutrino density. The whole part
    /// of `N_eff` must equal the number of masses; then a negative temperature
    /// is refused; then parameters outside the range the fixed-point
    /// computations cover.
    pub fn new(
        name: Option<String>,
        reference: Option<String>,
        H_0: i128,
        omega: OmegaFactors,
        T_CMB0: Option<i128>,
        N_eff: Option<DimensionlessPositiveFloat>,
        m_nu: Option<Vec<eV>>,
    ) -> (r: Result<Self, CosmoError>)
        requires
            omega.wf(),
        ensures
            ({
                let n_eff: int = match N_eff {
                    Some(n) => n.0 as int,
                    None => DEFAULT_N_EFF as int,
                };
                let n_masses: int = match m_nu {
                    Some(v) => v@.len() as int,
                    None => 3,
                };
                let t: int = match T_CMB0 {
                    Some(t) => t as int,
                    None => 0,
                };
                let mismatch = n_eff / (SCALE as int) != n_masses;
                let negative = t < 0;
                let og = photon_density_of(H_0 as int, t);
                let outside = omega.Omega_M0.0 > MAX_OMEGA || omega.Omega_DE0.0 > MAX_OMEGA || H_0
                    < MIN_H0 || H_0 > MAX_H0 || t > MAX_TEMPERATURE || n_eff > MAX_N_EFF || og
                    > MAX_OMEGA || neutrino_density_of(n_eff, og) > MAX_OMEGA;
                &&& mismatch <==> (r matches Err(CosmoError::NeutrinoCountMismatch))
                &&& (!mismatch && negative) <==> (r matches Err(CosmoError::InvalidValue))
                &&& (!mismatch && !negative && outside) <==> (r matches Err(CosmoError::OutOfRange))
                &&& (r matches Err(e) ==> e != CosmoError::InvalidCosmology)
                &&& (r matches Ok(c) ==> {
                    &&& c.wf()
                    &&& c.name == name
                    &&& c.reference == reference
                    &&& c.H_0 == H_0
                    &&& c.omega == omega
                    &&& c.omega_gamma0.0 == og
                    &&& c.omega_nu0.0 == neutrino_density_of(n_eff, og)
                    &&& c.T_CMB0 == match T_CMB0 {
                        Some(t) => Some(Kelvin(t)),
                        None => None::<Kelvin>,
                    }
                    &&& c.N_eff.0 == n_eff
                    &&& c.m_nu@.len() == n_masses
                    &&& (m_nu matches Some(v) ==> c.m_nu@ == v@)
                    &&& (m_nu is None ==> forall|i: int| 0 <= i < 3 ==> (#[trigger] c.m_nu@[i]).0 == 0)
                })
            }),
    {
        let N_eff = match N_eff {
            Some(n) => n,
            None => PositiveFloat(DEFAULT_N_EFF),
        };
        let m_nu = match m_nu {
            Some(v) => v,
            None => default_neutrino_masses(),
        };
        let whole = N_eff.floor();
        if whole < 0 || whole != m_nu.len() as i128 {
            return Err(CosmoError::NeutrinoCountMismatch);
        }
        let t: i128 = match T_CMB0 {
            Some(t) => t,
            None => 0,
        };
        if t < 0 {
            return Err(CosmoError::InvalidValue);
        }
        if omega.Omega_M0.0 > MAX_OMEGA || omega.Omega_DE0.0 > MAX_OMEGA || H_0 < MIN_H0 || H_0
            > MAX_H0 || t > MAX_TEMPERATURE || N_eff.0 > MAX_N_EFF {
            return Err(CosmoError::OutOfRange);
        }
        let omega_gamma0 = Self::photon_density_today(H_0, t);
        if omega_gamma0 > MAX_OMEGA {
            return Err(CosmoError::OutOfRange);
        }
        let omega_nu0 = Self::neutrino_density_today(N_eff.0, omega_gamma0);
        if omega_nu0 > MAX_OMEGA {
            return Err(CosmoError::OutOfRange);
        }
        let omega_gamma0 = DimensionlessFloat(omega_gamma0);
        let omega_nu0 = DimensionlessFloat(omega_nu0);
        let omega_k0 = omega.curvature_density_0(omega_nu0, omega_gamma0);
        let omega_tot0 = DimensionlessFloat(
            omega.Omega_M0.0 + omega_gamma0.0 + omega_nu0.0 + omega.Omega_DE0.0 + omega_k0.0,
        );
        let T_CMB0 = match T_CMB0 {
            Some(t) => Some(Kelvin(t)),
            None => None,
        };
        Ok(
            FLRWCosmology {
                name,
                reference,
                H_0,
                omega,
                omega_k0,
                omega_gamma0,
                omega_nu0,
                omega_tot0,
                T_CMB0,
                N_eff,
                m_nu,
            },
        )
    }

    /// Neutrino density today (raw) from the effective count and the photon
    /// density.
    fn neutrino_density_today(n_eff: i128, omega_gamma0: i128) -> (r: i128)
        requires
            0 <= n_eff <= MAX_N_EFF,
            0 <= omega_gamma0 <= MAX_OMEGA,
        ensures
            r == neutrino_density_of(n_eff as int, omega_gamma0 as int),
            r >= 0,
    {
        proof {
            reveal(neutrino_density_of);
            lemma_fixed_mul_le(NEUTRINO_FACTOR as int, n_eff as int, NEUTRINO_FACTOR as int, 1_000_000_000_000_000);
            let f = fixed_mul(NEUTRINO_FACTOR as int, n_eff as int);
            lemma_fixed_mul_le(
                f,
                omega_gamma0 as int,
                227_107_317_660_000,
                10_000_000_000_000,
            );
        }
        mul_fixed(mul_fixed(NEUTRINO_FACTOR, n_eff), omega_gamma0)
    }

    /// Photon density today (raw) from the Hubble constant and CMB temperature.
    fn photon_density_today(H_0: i128, t: i128) -> (r: i128)
        requires
            MIN_H0 <= H_0 <= MAX_H0,
            0 <= t <= MAX_TEMPERATURE,
        ensures
            r == photon_density_of(H_0 as int, t as int),
            r >= 0,
    {
        proof {
            reveal(photon_density_of);
        }
        let k = photon_density();
        proof {
            lemma_fixed_mul_le(t as int, t as int, 1_000_000_000_000_000, 1_000_000_000_000_000);
        }
        let t2 = mul_fixed(t, t);
        proof {
            lemma_fixed_mul_le(
                t2 as int,
                t2 as int,
                1_000_000_000_000_000_000,
                1_000_000_000_000_000_000,
            );
        }
        let t4 = mul_fixed(t2, t2);
        proof {
            lemma_fixed_mul_le(k as int, t4 as int, 4_483_000_000, 1_000_000_000_000_000_000_000_000);
            lemma_fixed_mul_le(H_0 as int, H_0 as int, 1_000_000_000_000_000_000, 1_000_000_000_000_000_000);
            lemma_fixed_mul_ge_one(H_0 as int, H_0 as int);
        }
        let kt4 = mul_fixed(k, t4);
        let h2 = mul_fixed(H_0, H_0);
        proof {
            let mk: int = 4_483_000_000_000_000_000_000;
            assert(0 <= kt4 * SCALE <= mk * SCALE);
            lemma_fixed_div_bounds(kt4 as int, h2 as int);
        }
        div_fixed(kt4, h2)
    }
}


/// Largest value of 1 + z (raw).
pub const MAX_Z_PLUS_ONE: i128 = SCALE + MAX_REDSHIFT;

/// Largest value of (1 + z)² (raw).
pub const MAX_Z_PLUS_ONE_SQUARED: i128 = 1_002_001_000_000_000_000;

/// Largest value of (1 + z)³ (raw).
pub const MAX_Z_PLUS_ONE_CUBED: i128 = 1_003_003_001_000_000_000_000;

/// Largest value of (1 + z)⁴ (raw).
pub const MAX_Z_PLUS_ONE_FOURTH: i128 = 1_004_006_004_001_000_000_000_000;

/// Largest magnitude of a density fraction at a redshift (raw).
pub const MAX_DENSITY_AT: i128 = 20_000_000_000_000_000_000_000_000 * SCALE;

/// Largest value of E(z)² over the parameter and redshift ranges (raw).
pub const MAX_E_SQUARED: i128 = 21_000_000_000_000_000_000_000_000;

/// (1 + z)² (raw, rounded down).
#[verifier::opaque]
pub open spec fn z_plus_one_squared(z: int) -> int {
    fixed_mul(SCALE + z, SCALE + z)
}

/// (1 + z)³ (raw, rounded down at each product).
#[verifier::opaque]
pub open spec fn z_plus_one_cubed(z: int) -> int {
    fixed_mul(z_plus_one_squared(z), SCALE + z)
}

/// (1 + z)⁴ (raw, rounded down at each product).
#[verifier::opaque]
pub open spec fn z_plus_one_fourth(z: int) -> int {
    fixed_mul(z_plus_one_cubed(z), SCALE + z)
}

/// The powers of 1 + z, with their bounds.
fn z_plus_one_powers(z: i128) -> (r: (i128, i128, i128))
    requires
        0 <= z <= MAX_REDSHIFT,
    ensures
        r.0 == z_plus_one_squared(z as int),
        r.1 == z_plus_one_cubed(z as int),
        r.2 == z_plus_one_fourth(z as int),
        SCALE <= r.0 <= MAX_Z_PLUS_ONE_SQUARED,
        SCALE <= r.1 <= MAX_Z_PLUS_ONE_CUBED,
        SCALE <= r.2 <= MAX_Z_PLUS_ONE_FOURTH,
{
    let x = SCALE + z;
    proof {
        reveal(z_plus_one_squared);
        reveal(z_plus_one_cubed);
        reveal(z_plus_one_fourth);
        lemma_fixed_mul_le(x as int, x as int, 1_001_000_000_000_000, 1_001_000_000_000_000);
        lemma_fixed_mul_ge_one(x as int, x as int);
    }
    let x2 = mul_fixed(x, x);
    proof {
        lemma_fixed_mul_le(x2 as int, x as int, 1_002_001_000_000_000_000, 1_001_000_000_000_000);
        lemma_fixed_mul_ge_one(x2 as int, x as int);
    }
    let x3 = mul_fixed(x2, x);
    proof {
        lemma_fixed_mul_le(x3 as int, x as int, 1_003_003_001_000_000_000_000, 1_001_000_000_000_000);
        lemma_fixed_mul_ge_one(x3 as int, x as int);
    }
    let x4 = mul_fixed(x3, x);
    (x2, x3, x4)
}

impl FLRWCosmology {
    /// E(z)², the radicand of the expansion function (raw):
    /// Ω_M0 (1+z)³ + Ω_k0 (1+z)² + Ω_DE0 + (Ω_γ0 + Ω_ν0) (1+z)⁴.
    #[verifier::opaque]
    pub open spec fn e_squared(&self, z: int) -> int {
        fixed_mul(self.omega.Omega_M0.0 as int, z_plus_one_cubed(z)) + fixed_mul(
            self.omega_k0.0 as int,
            z_plus_one_squared(z),
        ) + self.omega.Omega_DE0.0 + fixed_mul(
            self.omega_gamma0.0 + self.omega_nu0.0,
            z_plus_one_fourth(z),
        )
    }

    /// E(z), the dimensionless expansion rate (raw): the square root of
    /// `e_squared`, rounded down to the fixed-point resolution.
    pub open spec fn expansion_rate(&self, z: int) -> int {
        floor_sqrt(self.e_squared(z) * SCALE)
    }

    /// The square of the expansion function at redshift z, Σ Ω_i (1+z)^n_i.
    pub fn E_squared(&self, z: Redshift) -> (r: DimensionlessFloat)
        requires
            self.wf(),
            z.in_range(),
        ensures
            r.0 == self.e_squared(z.0 as int),
            -100_000_000_000_000_000_000 <= r.0 <= MAX_E_SQUARED,
    {
        let (x2, x3, x4) = z_plus_one_powers(z.0);
        let ghost m2 = 1_002_001_000_000_000_000;
        let ghost m3 = 1_003_003_001_000_000_000_000;
        let ghost m4 = 1_004_006_004_001_000_000_000_000;
        let m = self.omega.Omega_M0.0;
        let k = self.omega_k0.0;
        let rel = self.omega_gamma0.0 + self.omega_nu0.0;
        proof {
            lemma_fixed_mul_le(m as int, x3 as int, 10_000_000_000_000, m3);
            lemma_fixed_mul_abs_le(k as int, x2 as int, 40_000_000_000_000, m2);
            lemma_fixed_mul_le(rel as int, x4 as int, 20_000_000_000_000, m4);
            reveal(FLRWCosmology::e_squared);
        }
        let a = mul_fixed(m, x3);
        let b = mul_fixed(k, x2);
        let c = mul_fixed(rel, x4);
        DimensionlessFloat(a + b + self.omega.Omega_DE0.0 + c)
    }

    /// Dimensionless expansion rate E(z) = H(z) / H_0.
    pub fn E(&self, z: Redshift) -> (r: DimensionlessFloat)
        requires
            self.wf(),
            z.in_range(),
            self.e_squared(z.0 as int) >= 0,
        ensures
            r.0 == self.expansion_rate(z.0 as int),
            r.0 * r.0 <= self.e_squared(z.0 as int) * SCALE < (r.0 + 1) * (r.0 + 1),
            0 <= r.0 <= 5_000_000_000_000_000_000,
            self.e_squared(z.0 as int) >= 1 ==> r.0 >= 1_000_000,
    {
        let e2 = self.E_squared(z);
        let n: i128 = e2.0 * SCALE;
        let root = isqrt(n as u128);
        proof {
            lemma_sqrt_le(n as int, root as int, 5_000_000_000_000_000_000);
            if e2.0 >= 1 {
                lemma_sqrt_ge(n as int, root as int, 1_000_000);
            }
        }
        DimensionlessFloat(root as i128)
    }

    /// Hubble expansion rate (km/s/Mpc) at redshift z: H_0 · E(z).
    pub fn H(&self, z: Redshift) -> (r: KmPerSecPerMpc)
        requires
            self.wf(),
            z.in_range(),
            self.e_squared(z.0 as int) >= 0,
        ensures
            r == fixed_mul(self.H_0 as int, self.expansion_rate(z.0 as int)),
    {
        let e = self.E(z);
        proof {
            lemma_fixed_mul_le(self.H_0 as int, e.0 as int, 1_000_000_000_000_000_000, 5_000_000_000_000_000_000);
        }
        mul_fixed(self.H_0, e.0)
    }

    /// Scale factor at redshift z: 1 / (1 + z).
    pub fn scale_factor(&self, z: Redshift) -> (r: DimensionlessPositiveFloat)
        requires
            z.in_range(),
        ensures
            r.0 == fixed_div(SCALE as int, SCALE + z.0),
    {
        PositiveFloat(div_fixed(SCALE, SCALE + z.0))
    }

    /// Dimensionless hubble parameter h where 100 km/s/Mpc * h = H0
    pub fn little_h(&self) -> (r: DimensionlessPositiveFloat)
        requires
            self.wf(),
        ensures
            r.0 == self.H_0 / 100,
    {
        PositiveFloat(self.H_0 / 100)
    }

    /// Hubble time 1 / H_0 in seconds (Mpc converted to km so that the
    /// distance units cancel), rounded down to a whole second.
    pub fn hubble_time(&self) -> (r: Seconds)
        requires
            self.wf(),
        ensures
            r.0 == self.hubble_time_spec(),
            0 <= r.0 <= 3_086_000_000_000_000_000_000_000_000_000,
    {
        let whole: i128 = MPC_TO_KILOMETERS * SCALE / self.H_0;
        assert(whole <= (MPC_TO_KILOMETERS * SCALE) / (MIN_H0 as int)) by {
            vstd::arithmetic::div_mod::lemma_div_is_ordered_by_denominator(
                (MPC_TO_KILOMETERS * SCALE) as int,
                MIN_H0 as int,
                self.H_0 as int,
            );
        }
        Seconds(whole * SCALE)
    }

    /// Hubble distance c / H_0 in Mpc (raw).
    pub open spec fn hubble_distance_spec(&self) -> int {
        (C_M_PER_S * SCALE * SCALE) / (self.H_0 * KILOMETER_TO_METER)
    }

    /// Hubble time 1 / H_0 in seconds (raw), rounded down to a whole second.
    pub open spec fn hubble_time_spec(&self) -> int {
        (MPC_TO_KILOMETERS * SCALE) / (self.H_0 as int) * SCALE
    }

    /// Hubble distance c / H_0 in Mpc (c converted to km/s so that the units
    /// cancel).
    pub fn hubble_distance(&self) -> (r: Mpc)
        requires
            self.wf(),
        ensures
            r.0 == self.hubble_distance_spec(),
            299_792_458_000 <= r.0 <= 29_979_245_800_000_000,
    {
        let c = C_M_PER_S as i128;
        let d: i128 = self.H_0 * KILOMETER_TO_METER;
        proof {
            vstd::arithmetic::div_mod::lemma_div_is_ordered_by_denominator(
                (C_M_PER_S * SCALE * SCALE) as int,
                MIN_H0 * KILOMETER_TO_METER,
                d as int,
            );
            vstd::arithmetic::div_mod::lemma_div_is_ordered_by_denominator(
                (C_M_PER_S * SCALE * SCALE) as int,
                d as int,
                MAX_H0 * KILOMETER_TO_METER,
            );
        }
        Mpc(c * SCALE * SCALE / d)
    }

    /// Hubble distance in h⁻¹ Mpc: c / (100 km/s).
    pub fn hubble_distance_little_h(&self) -> (r: HInvMpc)
        ensures
            r == C_M_PER_S * SCALE / 100_000,
    {
        (C_M_PER_S as i128) * SCALE / 100_000
    }

    /// The CMB temperature today, zero if none was given.
    fn temperature_today(&self) -> (r: i128)
        ensures
            r == temperature_or_zero(self.T_CMB0),
    {
        match self.T_CMB0 {
            Some(t) => t.0,
            None => 0,
        }
    }

    /// CMB temperature at redshift z: T_CMB0 (1 + z).
    pub fn T_CMB(&self, z: Redshift) -> (r: Kelvin)
        requires
            self.wf(),
            z.in_range(),
        ensures
            r.0 == fixed_mul(temperature_or_zero(self.T_CMB0), SCALE + z.0),
    {
        let t = self.temperature_today();
        proof {
            lemma_fixed_mul_le(t as int, (SCALE + z.0) as int, 1_000_000_000_000_000, 1_001_000_000_000_000);
        }
        Kelvin(mul_fixed(t, SCALE + z.0))
    }

    /// Neutrino temperature at redshift z: T_CMB0 (4/11)^(1/3) (1 + z).
    pub fn T_nu(&self, z: Redshift) -> (r: Kelvin)
        requires
            self.wf(),
            z.in_range(),
        ensures
            r.0 == fixed_mul(
                fixed_mul(temperature_or_zero(self.T_CMB0), 713_765_855_503),
                SCALE + z.0,
            ),
    {
        let t = self.temperature_today();
        let ratio = t_nu_to_t_gamma_ratio();
        proof {
            lemma_fixed_mul_le(t as int, ratio.0 as int, 1_000_000_000_000_000, ratio.0 as int);
        }
        let t_nu = mul_fixed(t, ratio.0);
        proof {
            lemma_fixed_mul_le(t_nu as int, (SCALE + z.0) as int, 1_000_000_000_000_000, 1_001_000_000_000_000);
        }
        Kelvin(mul_fixed(t_nu, SCALE + z.0))
    }

    /// A density fraction today scaled by a power of (1 + z) and divided by
    /// E(z)² (raw).
    fn at_redshift(scaled: i128, e2: i128) -> (r: DimensionlessFloat)
        requires
            e2 >= 1,
            -20_000_000_000_000_000_000_000_000 <= scaled <= 20_000_000_000_000_000_000_000_000,
        ensures
            r.0 == fixed_div(scaled as int, e2 as int),
            -MAX_DENSITY_AT <= r.0 <= MAX_DENSITY_AT,
    {
        proof {
            lemma_fixed_div_bounds(scaled as int, e2 as int);
        }
        DimensionlessFloat(div_fixed(scaled, e2))
    }

    /// Dimensionless photon density (density/critical density) at `z=0`.
    pub fn omega_gamma0(&self) -> (r: DimensionlessFloat)
        ensures
            r == self.omega_gamma0,
    {
        self.omega_gamma0
    }

    /// Dimensionless photon density at redshift z: Ω_γ0 (1+z)⁴ / E(z)².
    pub fn omega_gamma(&self, z: Redshift) -> (r: DimensionlessFloat)
        requires
            self.wf(),
            z.in_range(),
            self.e_squared(z.0 as int) >= 1,
        ensures
            -MAX_DENSITY_AT <= r.0 <= MAX_DENSITY_AT,
            r.0 == fixed_div(
                fixed_mul(self.omega_gamma0.0 as int, z_plus_one_fourth(z.0 as int)),
                self.e_squared(z.0 as int),
            ),
    {
        let e2 = self.E_squared(z);
        let (_, _, x4) = z_plus_one_powers(z.0);
        proof {
            lemma_fixed_mul_le(self.omega_gamma0.0 as int, x4 as int, 10_000_000_000_000, 1_004_006_004_001_000_000_000_000);
        }
        Self::at_redshift(mul_fixed(self.omega_gamma0.0, x4), e2.0)
    }

    /// Dimensionless neutrino density (density/critical density) at `z=0`.
    pub fn omega_nu0(&self) -> (r: DimensionlessFloat)
        ensures
            r == self.omega_nu0,
    {
        self.omega_nu0
    }

    /// Dimensionless neutrino density at redshift z: Ω_ν0 (1+z)⁴ / E(z)².
    pub fn omega_nu(&self, z: Redshift) -> (r: DimensionlessFloat)
        requires
            self.wf(),
            z.in_range(),
            self.e_squared(z.0 as int) >= 1,
        ensures
            -MAX_DENSITY_AT <= r.0 <= MAX_DENSITY_AT,
            r.0 == fixed_div(
                fixed_mul(self.omega_nu0.0 as int, z_plus_one_fourth(z.0 as int)),
                self.e_squared(z.0 as int),
            ),
    {
        let e2 = self.E_squared(z);
        let (_, _, x4) = z_plus_one_powers(z.0);
        proof {
            lemma_fixed_mul_le(self.omega_nu0.0 as int, x4 as int, 10_000_000_000_000, 1_004_006_004_001_000_000_000_000);
        }
        Self::at_redshift(mul_fixed(self.omega_nu0.0, x4), e2.0)
    }

    /// Dimensionless dark matter density at `z=0`: matter minus baryons.
    pub fn omega_dm0(&self) -> (r: DimensionlessFloat)
        requires
            self.wf(),
        ensures
            r.0 == self.omega.Omega_M0.0 - self.omega.Omega_b0.0,
    {
        self.omega.omega_dark_matter_density_0()
    }

    /// Dimensionless dark matter density at redshift z: Ω_dm0 (1+z)³ / E(z)².
    pub fn omega_dm(&self, z: Redshift) -> (r: DimensionlessFloat)
        requires
            self.wf(),
            z.in_range(),
            self.e_squared(z.0 as int) >= 1,
        ensures
            -MAX_DENSITY_AT <= r.0 <= MAX_DENSITY_AT,
            r.0 == fixed_div(
                fixed_mul(self.omega.Omega_M0.0 - self.omega.Omega_b0.0, z_plus_one_cubed(z.0 as int)),
                self.e_squared(z.0 as int),
            ),
    {
        let e2 = self.E_squared(z);
        let (_, x3, _) = z_plus_one_powers(z.0);
        let dm = self.omega_dm0();
        proof {
            lemma_fixed_mul_le(dm.0 as int, x3 as int, 10_000_000_000_000, 1_003_003_001_000_000_000_000);
        }
        Self::at_redshift(mul_fixed(dm.0, x3), e2.0)
    }

    /// Dimensionless effective curvature density at `z=0`.
    pub fn omega_k0(&self) -> (r: DimensionlessFloat)
        ensures
            r == self.omega_k0,
    {
        self.omega_k0
    }

    /// Dimensionless curvature density at redshift z: Ω_k0 (1+z)² / E(z)².
    pub fn omega_k(&self, z: Redshift) -> (r: DimensionlessFloat)
        requires
            self.wf(),
            z.in_range(),
            self.e_squared(z.0 as int) >= 1,
        ensures
            -MAX_DENSITY_AT <= r.0 <= MAX_DENSITY_AT,
            r.0 == fixed_div(
                fixed_mul(self.omega_k0.0 as int, z_plus_one_squared(z.0 as int)),
                self.e_squared(z.0 as int),
            ),
    {
        let e2 = self.E_squared(z);
        let (x2, _, _) = z_plus_one_powers(z.0);
        proof {
            lemma_fixed_mul_abs_le(self.omega_k0.0 as int, x2 as int, 40_000_000_000_000, 1_002_001_000_000_000_000);
        }
        Self::at_redshift(mul_fixed(self.omega_k0.0, x2), e2.0)
    }

    /// Dimensionless matter density at `z=0`.
    pub fn omega_m0(&self) -> (r: DimensionlessFloat)
        ensures
            r == self.omega.Omega_M0,
    {
        self.omega.Omega_M0
    }

    /// Dimensionless matter density at redshift z: Ω_M0 (1+z)³ / E(z)².
    pub fn omega_m(&self, z: Redshift) -> (r: DimensionlessFloat)
        requires
            self.wf(),
            z.in_range(),
            self.e_squared(z.0 as int) >= 1,
        ensures
            -MAX_DENSITY_AT <= r.0 <= MAX_DENSITY_AT,
            r.0 == fixed_div(
                fixed_mul(self.omega.Omega_M0.0 as int, z_plus_one_cubed(z.0 as int)),
                self.e_squared(z.0 as int),
            ),
    {
        let e2 = self.E_squared(z);
        let (_, x3, _) = z_plus_one_powers(z.0);
        proof {
            lemma_fixed_mul_le(self.omega.Omega_M0.0 as int, x3 as int, 10_000_000_000_000, 1_003_003_001_000_000_000_000);
        }
        Self::at_redshift(mul_fixed(self.omega.Omega_M0.0, x3), e2.0)
    }

    /// Dimensionless baryon density at `z=0`.
    pub fn omega_b0(&self) -> (r: DimensionlessFloat)
        ensures
            r == self.omega.Omega_b0,
    {
        self.omega.Omega_b0
    }

    /// Dimensionless baryon density at redshift z: Ω_b0 (1+z)³ / E(z)².
    pub fn omega_b(&self, z: Redshift) -> (r: DimensionlessFloat)
        requires
            self.wf(),
            z.in_range(),
            self.e_squared(z.0 as int) >= 1,
        ensures
            -MAX_DENSITY_AT <= r.0 <= MAX_DENSITY_AT,
            r.0 == fixed_div(
                fixed_mul(self.omega.Omega_b0.0 as int, z_plus_one_cubed(z.0 as int)),
                self.e_squared(z.0 as int),
            ),
    {
        let e2 = self.E_squared(z);
        let (_, x3, _) = z_plus_one_powers(z.0);
        proof {
            lemma_fixed_mul_le(self.omega.Omega_b0.0 as int, x3 as int, 10_000_000_000_000, 1_003_003_001_000_000_000_000);
        }
        Self::at_redshift(mul_fixed(self.omega.Omega_b0.0, x3), e2.0)
    }

    /// Dimensionless dark energy density at `z=0`.
    pub fn omega_de0(&self) -> (r: DimensionlessFloat)
        ensures
            r == self.omega.Omega_DE0,
    {
        self.omega.Omega_DE0
    }

    /// Dimensionless dark energy density at redshift z: Ω_DE0 / E(z)².
    pub fn omega_de(&self, z: Redshift) -> (r: DimensionlessFloat)
        requires
            self.wf(),
            z.in_range(),
            self.e_squared(z.0 as int) >= 1,
        ensures
            -MAX_DENSITY_AT <= r.0 <= MAX_DENSITY_AT,
            r.0 == fixed_div(self.omega.Omega_DE0.0 as int, self.e_squared(z.0 as int)),
    {
        let e2 = self.E_squared(z);
        Self::at_redshift(self.omega.Omega_DE0.0, e2.0)
    }

    /// Dimensionless total density at `z=0`.
    pub fn omega_tot0(&self) -> (r: DimensionlessFloat)
        ensures
            r == self.omega_tot0,
    {
        self.omega_tot0
    }

    /// Dimensionless total density at redshift z: the sum of the matter,
    /// photon, neutrino, dark energy and curvature densities at z.
    pub fn omega_tot(&self, z: Redshift) -> (r: DimensionlessFloat)
        requires
            self.wf(),
            z.in_range(),
            self.e_squared(z.0 as int) >= 1,
        ensures
            ({
                let e2 = self.e_squared(z.0 as int);
                let x2 = z_plus_one_squared(z.0 as int);
                let x3 = z_plus_one_cubed(z.0 as int);
                let x4 = z_plus_one_fourth(z.0 as int);
                r.0 == fixed_div(fixed_mul(self.omega.Omega_M0.0 as int, x3), e2) + fixed_div(
                    fixed_mul(self.omega_gamma0.0 as int, x4),
                    e2,
                ) + fixed_div(fixed_mul(self.omega_nu0.0 as int, x4), e2) + fixed_div(
                    self.omega.Omega_DE0.0 as int,
                    e2,
                ) + fixed_div(fixed_mul(self.omega_k0.0 as int, x2), e2)
            }),
    {
        let m = self.omega_m(z);
        let g = self.omega_gamma(z);
        let n = self.omega_nu(z);
        let d = self.omega_de(z);
        let k = self.omega_k(z);
        DimensionlessFloat(m.0 + g.0 + n.0 + d.0 + k.0)
    }

    /// Critical mass density at redshift z: 3 H(z)² / (8 π G), that is the
    /// critical density today times E(z)². At z = 0 the product is skipped,
    /// since E(0)² is exactly one.
    pub fn critical_density(&self, z: Redshift) -> (r: KilogramsPerMeter3)
        requires
            self.wf(),
            z.in_range(),
            0 <= self.e_squared(z.0 as int),
            critical_density_today(self.H_0 as int) * self.e_squared(z.0 as int) <= i128::MAX,
        ensures
            r.0 == fixed_mul(critical_density_today(self.H_0 as int), self.e_squared(z.0 as int)),
    {
        proof {
            lemma_fixed_mul_le(self.H_0 as int, self.H_0 as int, 1_000_000_000_000_000_000, 1_000_000_000_000_000_000);
        }
        let h2 = mul_fixed(self.H_0, self.H_0);
        let rho0: i128 = 3 * h2 * 10_000_000_000 / (3086 * 3086) * 10_000_000_000 / (8 * PI as i128) / (
        G as i128);
        if z.0 == 0 {
            proof {
                lemma_critical_density_shortcut(*self);
            }
            KilogramsPerMeter3(rho0)
        } else {
            let e2 = self.E_squared(z);
            proof {
                assert(rho0 >= 0);
            }
            KilogramsPerMeter3(mul_fixed(rho0, e2.0))
        }
    }

    /// Whether this cosmology is spatially flat: zero curvature and a total
    /// density of exactly one, both compared exactly.
    pub fn is_flat(&self) -> (r: bool)
        ensures
            r == (self.omega_k0.0 == 0 && self.omega_tot0.0 == SCALE),
    {
        self.omega_k0.0 == 0 && self.omega_tot0.0 == SCALE
    }
}

/// E(0) is exactly one for every cosmology: at z = 0 every power of 1 + z is
/// one, and the curvature density makes the fractions sum to one.
pub proof fn lemma_expansion_today(c: FLRWCosmology)
    requires
        c.wf(),
    ensures
        c.e_squared(0) == SCALE,
        c.expansion_rate(0) == SCALE,
{
    reveal(FLRWCosmology::e_squared);
    reveal(z_plus_one_squared);
    reveal(z_plus_one_cubed);
    reveal(z_plus_one_fourth);
    lemma_fixed_mul_one(SCALE as int);
    lemma_fixed_mul_one(c.omega.Omega_M0.0 as int);
    lemma_fixed_mul_one(c.omega_k0.0 as int);
    lemma_fixed_mul_one(c.omega_gamma0.0 + c.omega_nu0.0);
    lemma_floor_sqrt_unique(SCALE * SCALE, SCALE as int);
}

/// The Hubble rate today is the Hubble constant: H(0) = H_0.
pub proof fn lemma_hubble_rate_today(c: FLRWCosmology)
    requires
        c.wf(),
    ensures
        fixed_mul(c.H_0 as int, c.expansion_rate(0)) == c.H_0,
{
    lemma_expansion_today(c);
    lemma_fixed_mul_one(c.H_0 as int);
}

/// The critical density at z = 0 by the general formula, ρ_c0 E(0)², equals
/// the critical density today.
pub proof fn lemma_critical_density_shortcut(c: FLRWCosmology)
    requires
        c.wf(),
    ensures
        fixed_mul(critical_density_today(c.H_0 as int), c.e_squared(0)) == critical_density_today(
            c.H_0 as int,
        ),
{
    lemma_expansion_today(c);
    lemma_fixed_mul_one(critical_density_today(c.H_0 as int));
}

/// The total density today is exactly one, so a cosmology is flat exactly
/// when its curvature density today is zero.
pub proof fn lemma_total_density_today(c: FLRWCosmology)
    requires
        c.wf(),
    ensures
        c.omega_tot0.0 == SCALE,
        (c.omega_k0.0 == 0 && c.omega_tot0.0 == SCALE) <==> c.omega_k0.0 == 0,
{
}

/// The neutrino factor is 7/8 · (4/11) · (4/11)^(1/3), with the cube root
/// rounded down to the fixed-point resolution.
pub proof fn lemma_neutrino_factor()
    ensures
        NEUTRINO_FACTOR == 7 * 4 * floor_cbrt(4 * SCALE * SCALE * SCALE / 11) / (88 as int),
{
    lemma_floor_cbrt_unique(4 * SCALE * SCALE * SCALE / 11, 713_765_855_503);
}

/// Without a CMB temperature there is neither photon nor neutrino density.
pub proof fn lemma_no_radiation(H_0: int)
    requires
        MIN_H0 <= H_0,
    ensures
        photon_density_of(H_0, 0) == 0,
        forall|n: int| neutrino_density_of(n, 0) == 0,
{
    reveal(photon_density_of);
    reveal(neutrino_density_of);
    reveal(fixed_mul);
    reveal(fixed_div);
    lemma_fixed_mul_ge_one(H_0, H_0);
    let h2 = fixed_mul(H_0, H_0);
    assert(fixed_mul(0, 0) == 0);
    assert(fixed_mul(photon_density_spec(), 0) == 0);
    assert(fixed_div(0, h2) == 0);
    assert forall|n: int| neutrino_density_of(n, 0) == 0 by {
        let f = fixed_mul(NEUTRINO_FACTOR as int, n);
        assert(f * 0 == 0);
    }
}

} // verus!
