//! Cosmological distances following Hogg (2000), and lookback time.
//!
//! The line-of-sight integrals are fixed-step Riemann sums over redshift with
//! step `DZ`; each term is a fixed-point quotient rounded down, so the sums
//! are stated exactly by the recursive spec functions below.
use crate::constants::{FOUR_PI_OVER_THREE, PI};
use crate::cosmology::{z_plus_one_squared, FLRWCosmology};
use crate::fixed::{
    asin, asin_fixed, asinh, asinh_fixed, div_fixed, fixed_div, fixed_mul, floor_div, floor_sqrt,
    isqrt, lemma_fixed_mul_abs_le, lemma_fixed_mul_ge, lemma_fixed_mul_le, lemma_fixed_square_le, lemma_sqrt_ge,
    lemma_sqrt_le, mul_fixed, mul_fixed_checked, sin_fixed, sin_reduced, sinh_fixed, sinh_reduced,
    MAX_ASINH_ARGUMENT,
    SCALE, SCALE_SQUARED,
};
use vstd::pervasive::unreached;
use crate::redshift::Redshift;
use crate::units::length::Mpc;
use crate::units::time::{Gyr, SECONDS_PER_GYR};
use vstd::prelude::*;

verus! {

/// Bin width of the comoving-distance sum (raw): Δz = 10⁻⁴.
pub const DZ: i128 = 100_000_000;

/// Bin width of the lookback sum (raw): Δz / 2.
pub const HALF_DZ: i128 = 50_000_000;

/// Largest comoving distance the sums can produce (raw).
pub const MAX_DISTANCE: i128 = 30_000_000_000_000_000_000_000_000;

/// Largest curvature density |Ω_k(z)| the transverse distance accepts (raw):
/// 10¹³, where the square root of |Ω_k| still fits its fixed-point range.
pub const MAX_CURVATURE: i128 = 10_000_000_000_000 * SCALE;

/// A comoving volume, fixed-point, in Mpc³.
pub type Mpc3 = i128;

/// 2 π D_H³ times `w` (raw), where `a` is π D_H³, when the volume fits in
/// `i128` (for a negative `w`, which only rounding produces, when `a · w`
/// fits as well).
pub open spec fn curved_volume(a: int, w: int) -> Option<int> {
    if w >= 0 {
        if 2 * fixed_mul(a, w) <= i128::MAX {
            Some(2 * fixed_mul(a, w))
        } else {
            None
        }
    } else if i128::MIN <= a * w && i128::MIN <= 2 * fixed_mul(a, w) {
        Some(2 * fixed_mul(a, w))
    } else {
        None
    }
}

/// Absolute value.
pub open spec fn abs(x: int) -> int {
    if x < 0 {
        -x
    } else {
        x
    }
}

/// The redshift of the `i`-th point of the comoving-distance grid (raw).
pub open spec fn comoving_point(i: int) -> int {
    i * DZ
}

/// The redshift of the `k`-th point of the lookback grid (raw).
pub open spec fn lookback_point(k: int) -> int {
    k * HALF_DZ
}

/// Number of comoving-distance bins up to redshift `z` (raw).
pub open spec fn comoving_bins(z: int) -> int {
    z / (DZ as int)
}

/// Number of lookback bins up to redshift `z` (raw): the smallest count whose
/// last point reaches `z`.
pub open spec fn lookback_bins(z: int) -> int {
    (z + HALF_DZ - 1) / (HALF_DZ as int)
}

impl FLRWCosmology {
    /// E(z)² is at least one raw step at every comoving grid point before `n`.
    pub open spec fn expands_on_comoving_grid(&self, n: int) -> bool {
        forall|i: int| 0 <= i < n ==> self.e_squared(#[trigger] comoving_point(i)) >= 1
    }

    /// E(z)² is at least one raw step at lookback grid points 1 to `n`.
    pub open spec fn expands_on_lookback_grid(&self, n: int) -> bool {
        forall|k: int| 1 <= k <= n ==> self.e_squared(#[trigger] lookback_point(k)) >= 1
    }

    /// Left Riemann sum of Δz / E(z) over the first `n` comoving grid points (raw).
    pub open spec fn comoving_sum(&self, n: nat) -> int
        decreases n,
    {
        if n == 0 {
            0
        } else {
            self.comoving_sum((n - 1) as nat) + fixed_div(
                DZ as int,
                self.expansion_rate(comoving_point(n - 1)),
            )
        }
    }

    /// Radial comoving distance (raw): D_H times the comoving sum below z.
    pub open spec fn radial_spec(&self, z: int) -> int {
        fixed_mul(self.hubble_distance_spec(), self.comoving_sum(comoving_bins(z) as nat))
    }

    /// Curvature density at redshift z (raw), Ω_k0 (1+z)² / E(z)².
    pub open spec fn curvature_at(&self, z: int) -> int {
        fixed_div(fixed_mul(self.omega_k0.0 as int, z_plus_one_squared(z)), self.e_squared(z))
    }

    /// √|Ω_k(z)| (raw, rounded down).
    pub open spec fn curvature_root(&self, z: int) -> int {
        floor_sqrt(abs(self.curvature_at(z)) * SCALE)
    }

    /// D_C / D_H at redshift z (raw).
    pub open spec fn distance_ratio(&self, z: int) -> int {
        fixed_div(self.radial_spec(z), self.hubble_distance_spec())
    }

    /// The argument of sinh or sin in the transverse distance (raw):
    /// √|Ω_k(z)| D_C / D_H.
    pub open spec fn curvature_argument(&self, z: int) -> int {
        fixed_mul(self.curvature_root(z), self.distance_ratio(z))
    }

    /// Transverse comoving distance (raw), where it is defined: D_C when
    /// Ω_k(z) is zero, else D_H / √|Ω_k| · sinh(√Ω_k D_C / D_H) when open and
    /// D_H / √|Ω_k| · sin(√|Ω_k| D_C / D_H) when closed. `None` when |Ω_k(z)|
    /// exceeds `MAX_CURVATURE`, when sinh leaves `i128`, or when the distance
    /// exceeds `MAX_DISTANCE`.
    pub open spec fn transverse_value(&self, z: int) -> Option<int> {
        let k = self.curvature_at(z);
        if k == 0 {
            Some(self.radial_spec(z))
        } else if abs(k) > MAX_CURVATURE {
            None
        } else {
            let factor = fixed_div(self.hubble_distance_spec(), self.curvature_root(z));
            let x = self.curvature_argument(z);
            if k > 0 {
                match sinh_fixed(x) {
                    Some(sh) => {
                        let d = fixed_mul(factor, sh);
                        if d <= MAX_DISTANCE {
                            Some(d)
                        } else {
                            None
                        }
                    },
                    None => None,
                }
            } else {
                Some(fixed_mul(factor, sin_fixed(x)))
            }
        }
    }

    /// The transverse comoving distance (raw), zero where it is not defined.
    pub open spec fn transverse_spec(&self, z: int) -> int {
        match self.transverse_value(z) {
            Some(d) => d,
            None => 0,
        }
    }

    /// Comoving volume out to z (raw, Mpc³), where its fixed-point evaluation
    /// stays in range (Hogg 2000, eqn. 29):
    /// flat: (4π/3) D_M³, with D_M cubed before the factor;
    /// open: 4π D_H³ / (2Ω_k) · (q √(1 + Ω_k q²) - asinh(√Ω_k q) / √Ω_k);
    /// closed: 4π D_H³ / (2Ω_k) · (q √(1 + Ω_k q²) - asin(√|Ω_k| q) / √|Ω_k|);
    /// with q = D_M / D_H and Ω_k = Ω_k(z).
    pub open spec fn volume_spec(&self, z: int) -> Option<int> {
        let dm = self.transverse_spec(z);
        let dh = self.hubble_distance_spec();
        let k = self.curvature_at(z);
        if k == 0 {
            let v = fixed_mul(fixed_mul(dm, fixed_mul(dm, dm)), FOUR_PI_OVER_THREE as int);
            if v <= i128::MAX {
                Some(v)
            } else {
                None
            }
        } else {
            let root = self.curvature_root(z);
            let q = fixed_div(dm, dh);
            let y = fixed_mul(root, q);
            let a = fixed_mul(PI as int, fixed_mul(fixed_mul(dh, dh), dh));
            if k > 0 && 0 <= y <= MAX_ASINH_ARGUMENT {
                let t1 = fixed_mul(q, floor_sqrt(SCALE * SCALE + y * y));
                let t2 = fixed_div(asinh_fixed(y), root);
                if t1 <= i128::MAX && i128::MIN <= (t1 - t2) * SCALE <= i128::MAX {
                    curved_volume(a, fixed_div(t1 - t2, k))
                } else {
                    None
                }
            } else if k < 0 && 0 <= y <= SCALE {
                let t1 = fixed_mul(q, floor_sqrt(SCALE * SCALE - y * y));
                let t2 = fixed_div(asin_fixed(y), root);
                curved_volume(a, fixed_div(t2 - t1, -k))
            } else {
                None
            }
        }
    }

    /// The transverse distance at z is defined: the expansion function is
    /// defined on the grid and at z, and `transverse_value` is defined.
    pub open spec fn transverse_defined(&self, z: int) -> bool {
        &&& self.expands_on_comoving_grid(comoving_bins(z))
        &&& self.e_squared(z) >= 1
        &&& self.transverse_value(z) is Some
    }

    /// One term of the lookback sum (raw): (Δz/2) / ((1 + z) E(z)).
    pub open spec fn lookback_term(&self, t: int) -> int {
        (HALF_DZ * SCALE * SCALE) / ((SCALE + t) * self.expansion_rate(t))
    }

    /// Sum of the lookback terms at grid points 1 to `n` (raw).
    pub open spec fn lookback_sum(&self, n: nat) -> int
        decreases n,
    {
        if n == 0 {
            0
        } else {
            self.lookback_sum((n - 1) as nat) + self.lookback_term(lookback_point(n as int))
        }
    }

    /// The lookback sum up to redshift `z`, or `None` where the expansion
    /// function is not defined on its grid.
    fn lookback_integral(&self, z: Redshift) -> (r: Option<i128>)
        requires
            self.wf(),
            z.in_range(),
        ensures
            r is Some <==> self.expands_on_lookback_grid(lookback_bins(z.0 as int)),
            r matches Some(s) ==> s == self.lookback_sum(lookback_bins(z.0 as int) as nat),
            r matches Some(s) ==> 0 <= s <= 1_000_000_000_000_000_000_000,
    {
        let m: i128 = (z.0 + HALF_DZ - 1) / HALF_DZ;
        assert(m <= 20_000_000);
        let mut k: i128 = 0;
        let mut sum: i128 = 0;
        while k < m
            invariant
                self.wf(),
                m == lookback_bins(z.0 as int),
                0 <= k <= m <= 20_000_000,
                sum == self.lookback_sum(k as nat),
                0 <= sum <= k * 50_000_000_000_000,
                self.expands_on_lookback_grid(k as int),
            decreases m - k,
        {
            let t = Redshift((k + 1) * HALF_DZ);
            assert(t.0 == lookback_point(k + 1));
            let e2 = self.E_squared(t);
            if e2.0 < 1 {
                return None;
            }
            let e = self.E(t);
            let x: i128 = SCALE + t.0;
            assert(1_000_000_000_000_000_000 <= x * e.0 <= 1_001_000_000_000_000 * 5_000_000_000_000_000_000)
                by (nonlinear_arith)
                requires
                    1_000_000_000_000 <= x <= 1_001_000_000_000_000,
                    1_000_000 <= e.0 <= 5_000_000_000_000_000_000,
            ;
            let den: i128 = x * e.0;
            proof {
                vstd::arithmetic::div_mod::lemma_div_is_ordered_by_denominator(
                    HALF_DZ * SCALE * SCALE,
                    1_000_000_000_000_000_000,
                    den as int,
                );
                vstd::arithmetic::div_mod::lemma_div_is_ordered(0, HALF_DZ * SCALE * SCALE, den as int);
            }
            let term: i128 = HALF_DZ * SCALE * SCALE / den;
            sum = sum + term;
            k = k + 1;
            assert forall|j: int| 1 <= j <= k implies self.e_squared(#[trigger] lookback_point(j))
                >= 1 by {
                if j == k {
                    assert(lookback_point(j) == t.0);
                }
            }
        }
        Some(sum)
    }

    /// Lookback time in gigayears: the difference in ages of the universe
    /// from now to when the light was emitted at redshift z,
    /// t_H · Σ (Δz/2) / ((1 + z) E(z)).
    ///
    /// `None` when E(z)² falls below one raw step at a grid point.
    pub fn lookback_time(&self, z: Redshift) -> (r: Option<Gyr>)
        requires
            self.wf(),
            z.in_range(),
        ensures
            r is Some <==> self.expands_on_lookback_grid(lookback_bins(z.0 as int)),
            r matches Some(t) ==> t.0 == fixed_mul(
                self.hubble_time_spec() / (SECONDS_PER_GYR as int),
                self.lookback_sum(lookback_bins(z.0 as int) as nat),
            ),
            z.0 == 0 ==> r == Some(Gyr(0)),
    {
        proof {
            reveal(fixed_mul);
        }
        match self.lookback_integral(z) {
            None => None,
            Some(sum) => {
                let t_h = self.hubble_time();
                let t_h_gyr: i128 = t_h.0 / SECONDS_PER_GYR;
                proof {
                    lemma_fixed_mul_le(t_h_gyr as int, sum as int, 100_000_000_000_000, 1_000_000_000_000_000_000_000);
                }
                Some(Gyr(mul_fixed(t_h_gyr, sum)))
            },
        }
    }

    /// Lookback distance in Megaparsecs: c times the lookback time, that is
    /// D_H · Σ (Δz/2) / ((1 + z) E(z)).
    ///
    /// `None` when E(z)² falls below one raw step at a grid point.
    pub fn lookback_distance(&self, z: Redshift) -> (r: Option<Mpc>)
        requires
            self.wf(),
            z.in_range(),
        ensures
            r is Some <==> self.expands_on_lookback_grid(lookback_bins(z.0 as int)),
            r matches Some(d) ==> d.0 == fixed_mul(
                self.hubble_distance_spec(),
                self.lookback_sum(lookback_bins(z.0 as int) as nat),
            ),
    {
        match self.lookback_integral(z) {
            None => None,
            Some(sum) => {
                let d_h = self.hubble_distance();
                proof {
                    lemma_fixed_mul_le(d_h.0 as int, sum as int, 30_000_000_000_000_000, 1_000_000_000_000_000_000_000);
                }
                Some(Mpc(mul_fixed(d_h.0, sum)))
            },
        }
    }
}

/// In a cosmology without curvature today, Ω_k(z) is zero at every redshift
/// where E(z) is defined, so the transverse comoving distance is the radial
/// one.
pub proof fn lemma_flat_transverse_is_radial(c: FLRWCosmology, z: int)
    requires
        c.wf(),
        c.omega_k0.0 == 0,
        c.e_squared(z) >= 1,
    ensures
        c.curvature_at(z) == 0,
        c.transverse_spec(z) == c.radial_spec(z),
{
    reveal(fixed_mul);
    reveal(fixed_div);
    assert(0 * z_plus_one_squared(z) == 0);
    assert((0 * SCALE) / c.e_squared(z) == 0);
}

/// A fixed-point quotient by a positive divisor of at least one raw step is
/// no larger in magnitude than the dividend's bound times `SCALE`, and the
/// product with `SCALE` fits.
proof fn lemma_fixed_div_abs(a: int, b: int, m: int)
    requires
        -m <= a <= m,
        1 <= b,
    ensures
        -m * SCALE <= a * SCALE <= m * SCALE,
        -m * SCALE <= fixed_div(a, b) <= m * SCALE,
{
    crate::fixed::lemma_fixed_div_bounds(a, b);
    assert(-m * SCALE <= a * SCALE <= m * SCALE) by (nonlinear_arith)
        requires
            -m <= a <= m,
    ;
}

/// Cosmological distances following Hogg (2000).
pub trait Distances {
    /// The receiver holds a valid cosmology.
    spec fn valid(&self) -> bool;

    /// Line of sight (radial) comoving distance in Megaparsecs.
    fn radial_comoving_distance(&self, z: Redshift) -> (r: Option<Mpc>)
        requires
            self.valid(),
            z.in_range(),
    ;

    /// Transverse comoving distance in Megaparsecs.
    fn transverse_comoving_distance(&self, z: Redshift) -> (r: Option<Mpc>)
        requires
            self.valid(),
            z.in_range(),
    ;

    /// Angular diameter distance in Megaparsecs.
    fn angular_diameter_distance(&self, z: Redshift) -> (r: Option<Mpc>)
        requires
            self.valid(),
            z.in_range(),
    ;

    /// Luminosity distance in Megaparsecs, for bolometric quantities (no
    /// K-corrections).
    fn luminosity_distance(&self, z: Redshift) -> (r: Option<Mpc>)
        requires
            self.valid(),
            z.in_range(),
    ;

    /// Comoving volume in Mpc³.
    fn comoving_volume(&self, z: Redshift) -> (r: Option<Mpc3>)
        requires
            self.valid(),
            z.in_range(),
    ;
}

impl Distances for FLRWCosmology {
    open spec fn valid(&self) -> bool {
        self.wf()
    }

    /// Line of sight (radial) comoving distance in Megaparsecs:
    /// D_H · Σ Δz / E(z) over the grid below z.
    ///
    /// `None` when E(z)² falls below one raw step at a grid point, where the
    /// expansion function is not defined.
    fn radial_comoving_distance(&self, z: Redshift) -> (r: Option<Mpc>)
        ensures
            r is Some <==> self.expands_on_comoving_grid(comoving_bins(z.0 as int)),
            r matches Some(d) ==> d.0 == self.radial_spec(z.0 as int),
            r matches Some(d) ==> 0 <= d.0 <= MAX_DISTANCE,
    {
        let n: i128 = z.0 / DZ;
        let mut i: i128 = 0;
        let mut sum: i128 = 0;
        while i < n
            invariant
                self.wf(),
                n == comoving_bins(z.0 as int),
                0 <= i <= n <= 10_000_000,
                sum == self.comoving_sum(i as nat),
                0 <= sum <= i * 100_000_000_000_000,
                self.expands_on_comoving_grid(i as int),
            decreases n - i,
        {
            let t = Redshift(i * DZ);
            assert(t.0 == comoving_point(i as int));
            let e2 = self.E_squared(t);
            if e2.0 < 1 {
                return None;
            }
            let e = self.E(t);
            proof {
                reveal(fixed_div);
                vstd::arithmetic::div_mod::lemma_div_is_ordered_by_denominator(
                    DZ * SCALE,
                    1_000_000,
                    e.0 as int,
                );
                vstd::arithmetic::div_mod::lemma_div_is_ordered(0, DZ * SCALE, e.0 as int);
            }
            let term = div_fixed(DZ, e.0);
            sum = sum + term;
            i = i + 1;
            assert forall|j: int| 0 <= j < i implies self.e_squared(#[trigger] comoving_point(j))
                >= 1 by {
                if j == i - 1 {
                    assert(comoving_point(j) == t.0);
                }
            }
        }
        let d_h = self.hubble_distance();
        proof {
            lemma_fixed_mul_le(d_h.0 as int, sum as int, 30_000_000_000_000_000, 1_000_000_000_000_000_000_000);
        }
        Some(Mpc(mul_fixed(d_h.0, sum)))
    }

    /// Transverse comoving distance in Megaparsecs, branching on the sign of
    /// Ω_k(z): open (sinh), flat (the radial distance itself) or closed (sin).
    ///
    /// `None` when the expansion function is not defined on the grid or at z,
    /// when |Ω_k(z)| exceeds 10¹³, or when the distance exceeds
    /// `MAX_DISTANCE` (3·10¹³ Mpc).
    fn transverse_comoving_distance(&self, z: Redshift) -> (r: Option<Mpc>)
        ensures
            r is Some <==> self.transverse_defined(z.0 as int),
            r matches Some(d) ==> d.0 == self.transverse_spec(z.0 as int),
            r matches Some(d) ==> self.curvature_at(z.0 as int) == 0 ==> d.0 == self.radial_spec(
                z.0 as int,
            ),
            r matches Some(d) ==> -MAX_DISTANCE <= d.0 <= MAX_DISTANCE,
            r matches Some(d) ==> self.curvature_at(z.0 as int) == 0 ==> d.0 >= 0,
    {
        let dc = match self.radial_comoving_distance(z) {
            None => return None,
            Some(d) => d,
        };
        let e2 = self.E_squared(z);
        if e2.0 < 1 {
            return None;
        }
        let k = self.omega_k(z);
        if k.0 == 0 {
            return Some(dc);
        }
        let abs_k: i128 = if k.0 > 0 {
            k.0
        } else {
            -k.0
        };
        if abs_k > MAX_CURVATURE {
            return None;
        }
        let root_raw = isqrt((abs_k * SCALE) as u128);
        proof {
            lemma_sqrt_le((abs_k * SCALE) as int, root_raw as int, 3_200_000_000_000_000_000);
            lemma_sqrt_ge((abs_k * SCALE) as int, root_raw as int, 1_000_000);
        }
        let root = root_raw as i128;
        let d_h = self.hubble_distance();
        proof {
            lemma_fixed_div_nonneg(dc.0 as int, d_h.0 as int);
            lemma_fixed_div_by_at_least(dc.0 as int, d_h.0 as int, MAX_DISTANCE as int, 299_792_458_000);
        }
        let ratio = div_fixed(dc.0, d_h.0);
        proof {
            lemma_fixed_mul_le(
                root as int,
                ratio as int,
                3_200_000_000_000_000_000,
                100_070_000_000_000_000_000_000_000,
            );
        }
        let arg = match mul_fixed_checked(root, ratio) {
            None => unreached(),
            Some(a) => a,
        };
        proof {
            lemma_fixed_div_nonneg(d_h.0 as int, root as int);
            reveal(fixed_div);
            vstd::arithmetic::div_mod::lemma_div_is_ordered_by_denominator(
                d_h.0 * SCALE,
                1_000_000,
                root as int,
            );
            vstd::arithmetic::div_mod::lemma_div_is_ordered(
                d_h.0 * SCALE,
                29_979_245_800_000_000 * SCALE,
                1_000_000,
            );
        }
        let factor = div_fixed(d_h.0, root);
        if k.0 > 0 {
            let sh = match sinh_reduced(arg) {
                None => return None,
                Some(v) => v,
            };
            let d = match mul_fixed_checked(factor, sh) {
                None => return None,
                Some(v) => v,
            };
            if d > MAX_DISTANCE {
                return None;
            }
            proof {
                lemma_fixed_mul_le(factor as int, sh as int, factor as int, sh as int);
            }
            Some(Mpc(d))
        } else {
            let sn = sin_reduced(arg);
            proof {
                assert(0 <= factor <= 29_979_245_800_000_000_000_000);
                lemma_fixed_mul_abs_le(sn as int, factor as int, 400 * SCALE, 29_979_245_800_000_000_000_000);
                assert(factor * sn == sn * factor) by (nonlinear_arith);
                reveal(fixed_mul);
            }
            Some(Mpc(mul_fixed(factor, sn)))
        }
    }

    /// Angular diameter distance in Megaparsecs: D_M / (1 + z).
    ///
    /// `None` exactly where the transverse distance is.
    fn angular_diameter_distance(&self, z: Redshift) -> (r: Option<Mpc>)
        ensures
            r is Some <==> self.transverse_defined(z.0 as int),
            r matches Some(d) ==> d.0 == fixed_div(self.transverse_spec(z.0 as int), SCALE + z.0),
    {
        match self.transverse_comoving_distance(z) {
            None => None,
            Some(dm) => Some(Mpc(div_fixed(dm.0, SCALE + z.0))),
        }
    }

    /// Luminosity distance in Megaparsecs: D_M (1 + z). This should be used
    /// with bolometric quantities: it includes no K-corrections.
    ///
    /// `None` where the transverse distance is, or where the product leaves
    /// the `i128` range.
    fn luminosity_distance(&self, z: Redshift) -> (r: Option<Mpc>)
        ensures
            r is Some <==> self.transverse_defined(z.0 as int) && i128::MIN <= self.transverse_spec(
                z.0 as int,
            ) * (SCALE + z.0) <= i128::MAX,
            r matches Some(d) ==> d.0 == fixed_mul(self.transverse_spec(z.0 as int), SCALE + z.0),
    {
        match self.transverse_comoving_distance(z) {
            None => None,
            Some(dm) => match dm.0.checked_mul(SCALE + z.0) {
                None => None,
                Some(p) => {
                    proof {
                        reveal(fixed_mul);
                    }
                    Some(Mpc(floor_div(p, SCALE)))
                },
            },
        }
    }

    /// Comoving volume out to redshift z, in Mpc³, branching on the sign of
    /// Ω_k(z) as the transverse distance does (`volume_spec`).
    ///
    /// `None` where the transverse distance is, where the volume itself
    /// exceeds `i128`, where the argument of asinh exceeds 9·10⁶ (open) or
    /// that of asin leaves [0, 1] (closed), or where an open-branch term
    /// (q √(1 + Ω_k q²), or the difference of the terms times `SCALE`)
    /// leaves `i128`.
    fn comoving_volume(&self, z: Redshift) -> (r: Option<Mpc3>)
        ensures
            r is Some <==> self.transverse_defined(z.0 as int) && self.volume_spec(z.0 as int) is Some,
            r matches Some(v) ==> self.volume_spec(z.0 as int) == Some(v as int),
    {
        let dm = match self.transverse_comoving_distance(z) {
            None => return None,
            Some(d) => d.0,
        };
        let dh = self.hubble_distance().0;
        let k = self.omega_k(z).0;
        if k == 0 {
            let ghost v = fixed_mul(
                fixed_mul(dm as int, fixed_mul(dm as int, dm as int)),
                FOUR_PI_OVER_THREE as int,
            );
            proof {
                if dm <= SCALE {
                    lemma_fixed_mul_le(dm as int, dm as int, SCALE as int, SCALE as int);
                } else {
                    lemma_fixed_mul_le(dm as int, dm as int, dm as int, dm as int);
                    lemma_fixed_mul_ge(dm as int, fixed_mul(dm as int, dm as int));
                }
                lemma_fixed_mul_le(dm as int, dm as int, dm as int, dm as int);
                lemma_fixed_mul_le(
                    dm as int,
                    fixed_mul(dm as int, dm as int),
                    dm as int,
                    fixed_mul(dm as int, dm as int),
                );
                lemma_fixed_mul_ge(
                    fixed_mul(dm as int, fixed_mul(dm as int, dm as int)),
                    FOUR_PI_OVER_THREE as int,
                );
            }
            let x2 = match mul_fixed_checked(dm, dm) {
                None => return None,
                Some(x) => x,
            };
            let x3 = match mul_fixed_checked(dm, x2) {
                None => return None,
                Some(x) => x,
            };
            return mul_fixed_checked(x3, FOUR_PI_OVER_THREE as i128);
        }
        let abs_k: i128 = if k > 0 {
            k
        } else {
            -k
        };
        let root_raw = isqrt((abs_k * SCALE) as u128);
        proof {
            lemma_sqrt_le((abs_k * SCALE) as int, root_raw as int, 3_200_000_000_000_000_000);
            lemma_sqrt_ge((abs_k * SCALE) as int, root_raw as int, 1_000_000);
        }
        let root = root_raw as i128;
        proof {
            lemma_fixed_div_abs(dm as int, dh as int, MAX_DISTANCE as int);
            lemma_fixed_div_by_at_least(dm as int, dh as int, MAX_DISTANCE as int, 299_792_458_000);
            lemma_fixed_mul_le(dh as int, dh as int, 29_979_245_800_000_000, 29_979_245_800_000_000);
        }
        let q = div_fixed(dm, dh);
        let rq = match root.checked_mul(q) {
            None => {
                proof {
                    reveal(fixed_mul);
                    assert(fixed_mul(root as int, q as int) > 100 * SCALE || fixed_mul(
                        root as int,
                        q as int,
                    ) < 0);
                }
                return None;
            },
            Some(p) => p,
        };
        proof {
            reveal(fixed_mul);
        }
        let y = floor_div(rq, SCALE);
        let d2 = mul_fixed(dh, dh);
        proof {
            lemma_fixed_mul_le(d2 as int, dh as int, 898_755_178_736_817_640_000, 29_979_245_800_000_000);
        }
        let d3 = mul_fixed(d2, dh);
        proof {
            lemma_fixed_mul_le(PI as int, d3 as int, PI as int, 26_944_002_417_373_989_539_335_912);
        }
        let a = mul_fixed(PI as i128, d3);
        let w: i128 = if k > 0 {
            if y < 0 || y > MAX_ASINH_ARGUMENT {
                return None;
            }
            assert(0 <= q <= 9_000_001_000_000_000_000_000_000) by (nonlinear_arith)
                requires
                    y == (root * q) / 1_000_000_000_000,
                    0 <= y <= 9_000_000_000_000_000_000,
                    1_000_000 <= root,
            ;
            assert(0 <= y * y <= 81_000_000_000_000_000_000_000_000_000_000_000_000) by (nonlinear_arith)
                requires
                    0 <= y <= 9_000_000_000_000_000_000,
            ;
            let n: i128 = SCALE_SQUARED + y * y;
            let s = isqrt(n as u128);
            proof {
                lemma_sqrt_le(n as int, s as int, 9_100_000_000_000_000_000);
            }
            let t1 = match mul_fixed_checked(q, s as i128) {
                None => return None,
                Some(v) => v,
            };
            let h = asinh(y);
            proof {
                lemma_fixed_div_abs(h as int, root as int, 20_000_000_000_000_000_000);
                lemma_fixed_div_by_at_least(h as int, root as int, 20_000_000_000_000_000_000, 1_000_000);
                lemma_fixed_div_nonneg(h as int, root as int);
                lemma_fixed_mul_le(q as int, s as int, q as int, s as int);
            }
            let t2 = div_fixed(h, root);
            let scaled = match (t1 - t2).checked_mul(SCALE) {
                None => return None,
                Some(v) => v,
            };
            proof {
                reveal(fixed_div);
            }
            floor_div(scaled, k)
        } else {
            if y < 0 || y > SCALE {
                return None;
            }
            assert(0 <= q <= 1_000_001_000_000_000_000) by (nonlinear_arith)
                requires
                    y == (root * q) / 1_000_000_000_000,
                    0 <= y <= 1_000_000_000_000,
                    1_000_000 <= root,
            ;
            assert(0 <= y * y <= SCALE_SQUARED) by (nonlinear_arith)
                requires
                    0 <= y <= 1_000_000_000_000,
                    SCALE_SQUARED == 1_000_000_000_000_000_000_000_000,
            ;
            let n: i128 = SCALE_SQUARED - y * y;
            let s = isqrt(n as u128);
            proof {
                lemma_sqrt_le(n as int, s as int, 1_000_000_000_000);
                lemma_fixed_mul_abs_le(q as int, s as int, 1_000_001_000_000_000_000, 1_000_000_000_000);
            }
            let t1 = mul_fixed(q, s as i128);
            let h = asin(y);
            proof {
                lemma_fixed_div_abs(h as int, root as int, 4_000_000_000_000_000);
                lemma_fixed_div_by_at_least(h as int, root as int, 4_000_000_000_000_000, 1_000_000);
            }
            let t2 = div_fixed(h, root);
            proof {
                lemma_fixed_div_abs((t2 - t1) as int, abs_k as int, 140_000_000_000_000_000_000_000);
            }
            div_fixed(t2 - t1, abs_k)
        };
        proof {
            assert(a >= 0);
        }
        if w >= 0 {
            match mul_fixed_checked(a, w) {
                None => None,
                Some(p) => p.checked_mul(2),
            }
        } else {
            assert(a * w <= 0) by (nonlinear_arith)
                requires
                    a >= 0,
                    w < 0,
            ;
            match a.checked_mul(w) {
                None => None,
                Some(p) => {
                    let v = floor_div(p, SCALE);
                    v.checked_mul(2)
                },
            }
        }
    }
}

/// A fixed-point quotient by a divisor of at least `lo` is bounded by the
/// dividend's bound times `SCALE` over `lo`.
proof fn lemma_fixed_div_by_at_least(a: int, b: int, m: int, lo: int)
    requires
        -m <= a <= m,
        1 <= lo <= b,
    ensures
        -((m * SCALE) / lo) - 1 <= fixed_div(a, b) <= (m * SCALE) / lo,
{
    reveal(fixed_div);
    let s = SCALE as int;
    let x = m * s;
    assert(-x <= a * s <= x) by (nonlinear_arith)
        requires
            -m <= a <= m,
            s > 0,
            x == m * s,
    ;
    assert(x >= 0) by (nonlinear_arith)
        requires
            -m <= a <= m,
            s > 0,
            x == m * s,
    ;
    vstd::arithmetic::div_mod::lemma_div_is_ordered(a * s, x, b);
    vstd::arithmetic::div_mod::lemma_div_is_ordered_by_denominator(x, lo, b);
    vstd::arithmetic::div_mod::lemma_div_is_ordered(-x, a * s, b);
    vstd::arithmetic::div_mod::lemma_fundamental_div_mod(x, b);
    vstd::arithmetic::div_mod::lemma_fundamental_div_mod(-x, b);
    let q1 = x / b;
    let q2 = (-x) / b;
    assert(q2 >= -q1 - 1) by (nonlinear_arith)
        requires
            x == b * q1 + x % b,
            -x == b * q2 + (-x) % b,
            0 <= x % b < b,
            0 <= (-x) % b < b,
            b >= 1,
    ;
}

/// A fixed-point quotient of a non-negative value by a positive one is
/// non-negative and fits the dividend's scaled range.
proof fn lemma_fixed_div_nonneg(a: int, b: int)
    requires
        0 <= a,
        1 <= b,
    ensures
        0 <= fixed_div(a, b) <= a * SCALE,
{
    crate::fixed::lemma_fixed_div_bounds(a, b);
}

} // verus!
