use cosmocalc::constants::{t_nu_to_t_gamma_ratio, ALPHA};
use cosmocalc::units::length::{MPC_TO_KILOMETERS, MPC_TO_METERS};
use cosmocalc::units::time::SECONDS_PER_GYR;
use cosmocalc::units::mass::KILOGRAM_SCALE;
use cosmocalc::utils::C_SQUARED;
use cosmocalc::{
    energy_to_mass, mass_to_energy, CosmoError, FloatingPointUnit, Gyr, Joule, Kelvin, Kilogram,
    Kilometer, Meter, Mpc, PositiveFloat, Seconds, SCALE,
};

/// Raw fixed-point value of a decimal number.
fn fx(v: f64) -> i128 {
    (v * SCALE as f64).round() as i128
}

#[test]
fn alpha() {
    // ALPHA is a whole number of 1e-30 J m^-3 K^-4.
    assert!(ALPHA as f64 * 1e-30 > 7.0e-16);
    assert!((ALPHA as f64) * 1e-30 < 8.0e-16);
}

/// Raw value of a mass in kilograms (steps of 1e-30 kg).
fn kg(v: f64) -> i128 {
    (v * 1e30).round() as i128
}

#[test]
fn mass_mass_energy_equivalance() {
    // ~1kg
    let equivalent_mass: Kilogram = energy_to_mass(Joule::new(fx(8.9e16)));
    assert!(equivalent_mass > Kilogram::new(kg(0.99)));
    assert!(equivalent_mass < Kilogram::new(kg(1.01)));

    let equivalent_energy: Joule = Kilogram::new(kg(1.)).into();
    assert!(equivalent_energy > Joule::new(fx(8.9e16)));
    assert!(equivalent_energy < Joule::new(fx(9.05e16)));
}

#[test]
fn utils_mass_energy_equivalance() {
    // ~1kg
    assert!(energy_to_mass(Joule::new(fx(8.9e16))).0 > kg(0.99));
    assert!(energy_to_mass(Joule::new(fx(8.9e16))).0 < kg(1.01));

    assert!(mass_to_energy(Kilogram::new(kg(1.))).0 > fx(8.9e16));
    assert!(mass_to_energy(Kilogram::new(kg(1.))).0 < fx(9.05e16));
}

#[test]
fn mass_energy_round_trips() {
    // Energy to mass and back is exact, down to one step of 1e-12 J.
    for e in [1i128, 7, fx(1.0), fx(8.9e16), -fx(2.5), 123_456_789_012_345_678_901_234_567i128] {
        assert_eq!(mass_to_energy(energy_to_mass(Joule(e))), Joule(e));
    }
    // Mass to energy and back moves by at most six steps of 1e-30 kg.
    for m in [0i128, 1, 7, kg(1.0), kg(123.456), -kg(2.5), kg(1.0e8), i128::MAX, i128::MIN] {
        let back = energy_to_mass_checked(mass_to_energy(Kilogram(m)));
        if let Some(back) = back {
            assert!((back.0 - m).abs() <= 6);
            if m.abs() >= 6_000_000 {
                assert!(((back.0 - m).abs() as f64) / (m.abs() as f64) <= 1e-6);
            }
        }
    }
    assert_eq!(C_SQUARED, 299_792_458i128 * 299_792_458);
}

/// The inverse conversion, for masses within its range of 1e8 kg.
fn energy_to_mass_checked(e: Joule) -> Option<Kilogram> {
    if e.0.abs() <= 8_000_000_000_000_000_000_000_000_000_000_000_000 {
        Some(energy_to_mass(e))
    } else {
        None
    }
}

#[test]
fn energy_to_mass_exact_value() {
    // E / c^2 in steps of 1e-30 kg: 1 J is 11126500560536 steps.
    assert_eq!(energy_to_mass(Joule(fx(1.0))).0, 11_126_500_560_536);
    assert_eq!(energy_to_mass(Joule(-1)).0, -12);
    assert_eq!(mass_to_energy(Kilogram(KILOGRAM_SCALE)).0, C_SQUARED * SCALE);
    let one_kg: Joule = Kilogram::one().into();
    assert_eq!(one_kg.0, C_SQUARED * SCALE);
}

#[test]
fn positive_float() {
    assert!(matches!(PositiveFloat::new(-1), Err(CosmoError::InvalidValue)));
    assert_eq!(PositiveFloat::new(5).unwrap(), PositiveFloat(5));
    assert_eq!(PositiveFloat::zero().0, 0);
    assert_eq!(PositiveFloat::one().0, SCALE);
    assert_eq!(PositiveFloat(fx(3.04)).floor(), 3);
    assert_eq!(PositiveFloat(fx(1.5)).add(PositiveFloat(fx(2.0))).0, fx(3.5));
    assert_eq!(PositiveFloat(fx(1.5)).sub(PositiveFloat(fx(0.5))).0, fx(1.0));
}

#[test]
fn unit_arithmetic() {
    assert_eq!(Mpc::new(fx(1.5)).add(Mpc::new(fx(2.0))), Mpc::new(fx(3.5)));
    assert_eq!(Mpc::new(fx(1.5)).sub(Mpc::new(fx(2.0))), Mpc::new(fx(-0.5)));
    assert_eq!(Kelvin::one().0, SCALE);
    assert_eq!(Kelvin::default(), Kelvin::zero());
    assert_eq!(Mpc::new(fx(-2.5)).floor(), -3);
    assert_eq!(Mpc::new(42).inner(), 42);
}

#[test]
fn length_conversions() {
    assert_eq!(Meter::from_kilometers(Kilometer(fx(2.5))).0, fx(2500.0));
    assert_eq!(Meter::from_mpc(Mpc(fx(1.0))).0, MPC_TO_METERS * SCALE);
    assert_eq!(Kilometer::from_mpc(Mpc(fx(2.0))).0, 2 * MPC_TO_KILOMETERS * SCALE);
}

#[test]
fn seconds_to_gigayears() {
    let g: Gyr = Seconds(SECONDS_PER_GYR * SCALE).into();
    assert_eq!(g, Gyr(fx(1.0)));
    let g: Gyr = Seconds(3 * SECONDS_PER_GYR * SCALE / 2).into();
    assert_eq!(g.0, fx(1.5));
    let g: Gyr = Seconds(SECONDS_PER_GYR * SCALE - 1).into();
    assert_eq!(g.0, fx(1.0) - 1);
}

#[test]
fn neutrino_temperature_ratio() {
    let r = t_nu_to_t_gamma_ratio().0 as f64 / SCALE as f64;
    assert!((r - (4.0f64 / 11.0).powf(1.0 / 3.0)).abs() < 1e-12);
}
