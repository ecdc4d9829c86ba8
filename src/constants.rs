//! Physical constants (CODATA 2018) as fixed-point or scaled integers.
//!
//! Each constant names the power of ten its integer counts; the derived
//! constants are evaluated at compile time from the primitive ones.
use crate::fixed::{floor_cbrt, icbrt, lemma_floor_cbrt_unique, SCALE};
use crate::units::energy::eV;
use crate::units::{DimensionlessPositiveFloat, MetersPerSecond, PositiveFloat};
use vstd::prelude::*;

verus! {

/// Pi, fixed-point.
pub const PI: u128 = 3_141_592_653_590;

/// 4π/3, fixed-point.
pub const FOUR_PI_OVER_THREE: u128 = 4 * PI / 3;

/// Speed of light, in m/s (exact).
pub const C_M_PER_S: MetersPerSecond = 299_792_458;

/// Gravitational constant, in units of 10⁻¹⁶ m³ kg⁻¹ s⁻².
pub const G: u128 = 667_430;

/// Boltzmann constant, in units of 10⁻²⁹ J/K (exact).
pub const BOLTZMANN: u128 = 1_380_649;

/// Stefan-Boltzmann constant, in units of 10⁻¹⁸ W m⁻² K⁻⁴.
pub const STEFAN_BOLTZMANN: u128 = 56_703_744_194;

/// Reduced Planck constant, in units of 10⁻⁴³ J s (exact).
pub const H_BAR: u128 = 1_054_571_817;

/// Effective number of neutrinos, fixed-point (WMAP, Spergel et al. 2007).
pub const DEFAULT_N_EFF: i128 = 3_040_000_000_000;

/// Radiation constant α = π² k⁴ / (15 ℏ³ c³), in units of 10⁻³⁰ J m⁻³ K⁻⁴
/// (Ryden, eqn 2.29).
///
/// The factors are multiplied and divided alternately so that every partial
/// result fits in an `i128` while keeping at least twenty significant digits.
pub const ALPHA: u128 = PI * PI * BOLTZMANN * BOLTZMANN / H_BAR * BOLTZMANN / H_BAR * BOLTZMANN
    * 1_000_000 / H_BAR * 1_000_000_000 / 15 / C_M_PER_S * 10_000 / C_M_PER_S / C_M_PER_S;

/// Photon density coefficient 8πGα·(Mpc/km)² / (3c²), fixed-point, in
/// (km/s/Mpc)² K⁻⁴: the photon density parameter today is this times
/// T_CMB0⁴ / H_0².
pub open spec fn photon_density_spec() -> int {
    let c = C_M_PER_S as int;
    let mpc = MPC_TO_1E16_KILOMETERS as int;
    8 * (PI as int) * (G as int) * (ALPHA as int) / c * mpc / c * mpc / 3 / 100_000_000_000_000
}

/// Evaluates the photon density coefficient (`photon_density_spec`).
pub fn photon_density() -> (r: i128)
    ensures
        r == photon_density_spec(),
        4_482_000_000 < r < 4_483_000_000,
{
    proof {
        lemma_alpha_in_range();
    }
    let a: u128 = ALPHA;
    assert(a == 756573326418801);
    let k: u128 = 8 * PI * G * a / C_M_PER_S * MPC_TO_1E16_KILOMETERS / C_M_PER_S
        * MPC_TO_1E16_KILOMETERS / 3 / 100_000_000_000_000;
    assert(k == 4482556703);
    k as i128
}

/// A megaparsec in units of 10¹⁶ km.
pub const MPC_TO_1E16_KILOMETERS: u128 = 3_086;

/// The radiation constant lies between 7.0e-16 and 8.0e-16 J m⁻³ K⁻⁴.
pub proof fn lemma_alpha_in_range()
    ensures
        700_000_000_000_000 < ALPHA < 800_000_000_000_000,
{
    assert(ALPHA == 756573326418801);
}

/// Ratio of neutrino to photon temperature, (4/11)^(1/3), fixed-point and
/// rounded down.
pub fn t_nu_to_t_gamma_ratio() -> (r: DimensionlessPositiveFloat)
    ensures
        r.0 == floor_cbrt(4 * SCALE * SCALE * SCALE / 11),
        r.0 * r.0 * r.0 <= 4 * SCALE * SCALE * SCALE / 11,
        4 * SCALE * SCALE * SCALE / 11 < (r.0 + 1) * (r.0 + 1) * (r.0 + 1),
        r.0 == 713_765_855_503,
{
    let n: u128 = 363_636_363_636_363_636_363_636_363_636_363_636;
    assert(n == 4 * SCALE * SCALE * SCALE / 11);
    let r = icbrt(n);
    proof {
        lemma_floor_cbrt_unique(n as int, 713_765_855_503);
    }
    PositiveFloat(r as i128)
}

/// Masses of the default neutrino species: three massless neutrinos.
pub fn default_neutrino_masses() -> (r: Vec<eV>)
    ensures
        r@.len() == 3,
        forall|i: int| 0 <= i < 3 ==> (#[trigger] r@[i]).0 == 0,
{
    vec![eV(0), eV(0), eV(0)]
}

} // verus!
