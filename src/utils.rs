//! Mass-energy equivalence, E = mc².
//!
//! Energies are whole numbers of 10⁻¹² J and masses whole numbers of
//! 10⁻³⁰ kg. One mass step is worth about 9·10⁻¹⁴ J, less than one energy
//! step, so an energy converted to mass and back is recovered exactly.
use crate::constants::C_M_PER_S;
use crate::fixed::floor_div;
use crate::units::energy::Joule;
use crate::units::mass::Kilogram;
use vstd::arithmetic::div_mod::{lemma_fundamental_div_mod, lemma_fundamental_div_mod_converse};
use vstd::prelude::*;

verus! {

/// The square of the speed of light, in m²/s² (exact).
pub const C_SQUARED: i128 = 89_875_517_873_681_764;

/// Mass steps per energy step, before the factor c²: 10³⁰ / 10¹².
pub const MASS_STEPS_PER_ENERGY_STEP: i128 = 1_000_000_000_000_000_000;

/// Largest mass `energy_to_mass` produces (raw): 10⁸ kg.
pub const MAX_MASS: i128 = 100_000_000_000_000_000_000_000_000_000_000_000_000;

/// Raw mass equivalent to a raw energy: E / c², rounded down.
pub open spec fn mass_of_energy(e: int) -> int {
    (e * MASS_STEPS_PER_ENERGY_STEP) / (C_SQUARED as int)
}

/// Raw energy equivalent to a raw mass: m · c², rounded to the nearest
/// energy step (halves up).
pub open spec fn energy_of_mass(m: int) -> int {
    (m * C_SQUARED + MASS_STEPS_PER_ENERGY_STEP / 2) / (MASS_STEPS_PER_ENERGY_STEP as int)
}

/// The constant is the square of the speed of light.
pub proof fn lemma_c_squared()
    ensures
        C_SQUARED == C_M_PER_S * C_M_PER_S,
{
}

/// Convert energy to mass using E = mc².
pub fn energy_to_mass(energy: Joule) -> (r: Kilogram)
    requires
        -MAX_MASS <= mass_of_energy(energy.0 as int) <= MAX_MASS,
    ensures
        r.0 == mass_of_energy(energy.0 as int),
{
    let e = energy.0;
    let f = MASS_STEPS_PER_ENERGY_STEP;
    let q = floor_div(e, C_SQUARED);
    proof {
        lemma_fundamental_div_mod(e as int, C_SQUARED as int);
    }
    let r: i128 = e - q * C_SQUARED;
    let t: i128 = r * f / C_SQUARED;
    proof {
        let s = (r * f) % (C_SQUARED as int);
        lemma_fundamental_div_mod(r * f, C_SQUARED as int);
        assert(e * f == (q * f + t) * C_SQUARED + s) by (nonlinear_arith)
            requires
                e == q * C_SQUARED + r,
                r * f == t * C_SQUARED + s,
        ;
        lemma_fundamental_div_mod_converse(e * f, C_SQUARED as int, q * f + t, s);
        assert(0 <= t < f);
    }
    Kilogram(q * f + t)
}

/// Convert mass to energy using E = mc².
pub fn mass_to_energy(mass: Kilogram) -> (r: Joule)
    ensures
        r.0 == energy_of_mass(mass.0 as int),
{
    let m = mass.0;
    let f = MASS_STEPS_PER_ENERGY_STEP;
    let q = floor_div(m, f);
    proof {
        lemma_fundamental_div_mod(m as int, f as int);
    }
    proof {
        let hi: int = 170_141_183_460_469_231_731_687_303_715_884_105_727;
        vstd::arithmetic::div_mod::lemma_div_is_ordered(m as int, hi, f as int);
        vstd::arithmetic::div_mod::lemma_div_is_ordered(-hi - 1, m as int, f as int);
        lemma_fundamental_div_mod_converse(hi, f as int, 170_141_183_460_469_231_731, 687_303_715_884_105_727);
        lemma_fundamental_div_mod_converse(
            -hi - 1,
            f as int,
            -170_141_183_460_469_231_732,
            312_696_284_115_894_272,
        );
    }
    assert(-170_141_183_460_469_231_732 <= q <= 170_141_183_460_469_231_731);
    let r0: i128 = m % f;
    let r: i128 = if r0 < 0 {
        r0 + f
    } else {
        r0
    };
    assert(r == m - q * f);
    assert(0 <= r * C_SQUARED <= 89_875_517_873_681_764_000_000_000_000_000_000) by (nonlinear_arith)
        requires
            0 <= r < 1_000_000_000_000_000_000,
            C_SQUARED == 89_875_517_873_681_764,
    ;
    let t: i128 = (r * C_SQUARED + f / 2) / f;
    proof {
        let u = r * C_SQUARED + f / 2;
        let s = u % (f as int);
        lemma_fundamental_div_mod(u, f as int);
        assert(m * C_SQUARED + f / 2 == (q * C_SQUARED + t) * f + s) by (nonlinear_arith)
            requires
                m == q * f + r,
                u == t * f + s,
                u == r * C_SQUARED + f / 2,
        ;
        lemma_fundamental_div_mod_converse(m * C_SQUARED + f / 2, f as int, q * C_SQUARED + t, s);
    }
    Joule(q * C_SQUARED + t)
}

/// Energy to mass and back gives the energy unchanged.
pub proof fn lemma_energy_mass_energy(e: int)
    ensures
        energy_of_mass(mass_of_energy(e)) == e,
{
    let f = MASS_STEPS_PER_ENERGY_STEP as int;
    let c2 = C_SQUARED as int;
    let m = mass_of_energy(e);
    let s = (e * f) % c2;
    lemma_fundamental_div_mod(e * f, c2);
    assert(m * c2 + f / 2 == e * f + (f / 2 - s));
    lemma_fundamental_div_mod_converse(m * c2 + f / 2, f, e, f / 2 - s);
}

/// Mass to energy and back moves the mass by at most six mass steps
/// (6·10⁻³⁰ kg), which is within one part in a million for masses of at
/// least 6·10⁻²⁴ kg.
pub proof fn lemma_mass_energy_mass(m: int)
    ensures
        -6 <= mass_of_energy(energy_of_mass(m)) - m <= 5,
        (m >= 6_000_000 || m <= -6_000_000) ==> 1_000_000 * (mass_of_energy(energy_of_mass(m)) - m)
            <= if m >= 0 { m } else { -m },
        (m >= 6_000_000 || m <= -6_000_000) ==> -1_000_000 * (mass_of_energy(energy_of_mass(m)) - m)
            <= if m >= 0 { m } else { -m },
{
    let f = MASS_STEPS_PER_ENERGY_STEP as int;
    let c2 = C_SQUARED as int;
    let u = m * c2 + f / 2;
    let e = energy_of_mass(m);
    let s1 = u % f;
    lemma_fundamental_div_mod(u, f);
    let m2 = mass_of_energy(e);
    let s2 = (e * f) % c2;
    lemma_fundamental_div_mod(e * f, c2);
    let d = m2 - m;
    assert(u == f * e + s1);
    assert(e * f == c2 * m2 + s2);
    assert(d * c2 <= f / 2 - s1 - s2) by (nonlinear_arith)
        requires
            u == m * c2 + f / 2,
            u == f * e + s1,
            e * f == c2 * m2 + s2,
            d == m2 - m,
    ;
    assert(d * c2 > -(f / 2) - c2) by (nonlinear_arith)
        requires
            u == m * c2 + f / 2,
            u == f * e + s1,
            e * f == c2 * m2 + s2,
            d == m2 - m,
            0 <= s1 < f,
            0 <= s2 < c2,
    ;
}

} // verus!
