use cosmocalc::{
    eV, Distances, FLRWCosmology, FloatingPointUnit, Mpc, OmegaFactors, PositiveFloat, Redshift,
    SCALE,
};

/// Raw fixed-point value of a decimal number.
fn fx(v: f64) -> i128 {
    (v * SCALE as f64).round() as i128
}

fn mpc(v: f64) -> Mpc {
    Mpc::new(fx(v))
}

fn z(v: f64) -> Redshift {
    Redshift::new(fx(v))
}

fn omegas(m: f64, de: f64, b: f64) -> OmegaFactors {
    OmegaFactors::new(fx(m), fx(de), fx(b)).unwrap()
}

#[test]
fn flat_universe_distances_no_relativistic_contribution() {
    let omegas = omegas(0.286, 0.714, 0.05);
    let cosmology = FLRWCosmology::new(None, None, fx(69.6), omegas, None, None, None).unwrap();

    assert!(cosmology.radial_comoving_distance(z(3.0)).unwrap() > mpc(6482.5));
    assert!(cosmology.radial_comoving_distance(z(3.0)).unwrap() < mpc(6482.8));
    assert!(cosmology.angular_diameter_distance(z(3.0)).unwrap() > mpc(1620.6));
    assert!(cosmology.angular_diameter_distance(z(3.0)).unwrap() < mpc(1620.7));
    assert!(cosmology.luminosity_distance(z(3.0)).unwrap() > mpc(25930.0));
    assert!(cosmology.luminosity_distance(z(3.0)).unwrap() < mpc(25931.0));
}

#[test]
fn flat_universe_distances_with_radiation_but_no_neutrinos() {
    let omegas = omegas(0.299, 0.7, 0.05);
    let cosmology = FLRWCosmology::new(
        None,
        None,
        fx(69.6),
        omegas,
        Some(fx(2.7255)),
        Some(PositiveFloat(0)),
        Some(vec![]),
    )
    .unwrap();

    assert!(cosmology.radial_comoving_distance(z(3.0)).unwrap() > mpc(6395.0));
    assert!(cosmology.radial_comoving_distance(z(3.0)).unwrap() < mpc(6399.0));
    assert!(cosmology.angular_diameter_distance(z(3.0)).unwrap() > mpc(1599.0));
    assert!(cosmology.angular_diameter_distance(z(3.0)).unwrap() < mpc(1600.0));
    assert!(cosmology.luminosity_distance(z(3.0)).unwrap() > mpc(25589.));
    assert!(cosmology.luminosity_distance(z(3.0)).unwrap() < mpc(25594.));
}

#[test]
fn flat_universe_distances_with_radiation_and_neutrinos() {
    let omegas = omegas(0.25, 0.7, 0.05);
    let cosmology = FLRWCosmology::new(
        None,
        None,
        fx(69.6),
        omegas,
        Some(fx(2.7255)),
        Some(PositiveFloat(fx(3.04))),
        Some(vec![eV::zero(), eV::zero(), eV::zero()]),
    )
    .unwrap();

    assert!(cosmology.radial_comoving_distance(z(3.0)).unwrap() > mpc(6598.));
    assert!(cosmology.radial_comoving_distance(z(3.0)).unwrap() < mpc(6598.5));
    assert!(cosmology.angular_diameter_distance(z(3.0)).unwrap() > mpc(1600.5));
    assert!(cosmology.angular_diameter_distance(z(3.0)).unwrap() < mpc(1700.0));
    assert!(cosmology.luminosity_distance(z(3.0)).unwrap() > mpc(25000.));
    assert!(cosmology.luminosity_distance(z(3.0)).unwrap() < mpc(27000.));
}

#[test]
fn open_universe_distances_no_relativistic_contribution() {
    let omegas = omegas(0.286, 0.0, 0.05);
    let cosmology = FLRWCosmology::new(None, None, fx(69.6), omegas, None, None, None).unwrap();

    assert!(cosmology.radial_comoving_distance(z(3.0)).unwrap() > mpc(5200.));
    assert!(cosmology.radial_comoving_distance(z(3.0)).unwrap() < mpc(5300.));
    assert!(cosmology.angular_diameter_distance(z(3.0)).unwrap() > mpc(1250.));
    assert!(cosmology.angular_diameter_distance(z(3.0)).unwrap() < mpc(1600.));
    // No k-corrections here
    assert!(cosmology.luminosity_distance(z(3.0)).unwrap() > mpc(22000.));
    assert!(cosmology.luminosity_distance(z(3.0)).unwrap() < mpc(24000.));
}

#[test]
fn closed_universe_distances_no_relativistic_contribution() {
    let omegas = omegas(0.286, 0.8, 0.05);
    let cosmology = FLRWCosmology::new(None, None, fx(69.6), omegas, None, None, None).unwrap();

    assert!(cosmology.radial_comoving_distance(z(2.0)).unwrap() > mpc(5000.));
    assert!(cosmology.radial_comoving_distance(z(2.0)).unwrap() < mpc(6000.));
    assert!(cosmology.angular_diameter_distance(z(2.0)).unwrap() > mpc(1500.));
    assert!(cosmology.angular_diameter_distance(z(2.0)).unwrap() < mpc(2000.));
    // No k-corrections here
    assert!(cosmology.luminosity_distance(z(2.0)).unwrap() > mpc(14000.));
    assert!(cosmology.luminosity_distance(z(2.0)).unwrap() < mpc(16000.));
}

#[test]
fn simple_two_component() {
    let cosmology = FLRWCosmology::two_component(fx(0.286), fx(0.714), fx(69.6));
    assert!(cosmology.radial_comoving_distance(z(2.0)).unwrap() > mpc(5273.));
    assert!(cosmology.radial_comoving_distance(z(2.0)).unwrap() < mpc(5274.));
}

#[test]
fn flat_transverse_equals_radial() {
    let cosmology = FLRWCosmology::two_component(fx(0.3), fx(0.7), fx(70.0));
    assert_eq!(cosmology.omega_k0().0, 0);
    for v in [0.0, 0.5, 1.0, 2.5] {
        assert_eq!(
            cosmology.transverse_comoving_distance(z(v)),
            cosmology.radial_comoving_distance(z(v))
        );
    }
}

#[test]
fn distances_at_zero_redshift_vanish() {
    let cosmology = FLRWCosmology::two_component(fx(0.3), fx(0.7), fx(70.0));
    assert_eq!(cosmology.radial_comoving_distance(z(0.0)), Some(Mpc(0)));
    assert_eq!(cosmology.luminosity_distance(z(0.0)), Some(Mpc(0)));
    assert_eq!(cosmology.angular_diameter_distance(z(0.0)), Some(Mpc(0)));
}

#[test]
fn radial_distance_integrates_to_fractional_redshift() {
    // The grid reaches z = 2.5 itself, not only its whole part.
    let cosmology = FLRWCosmology::two_component(fx(0.3), fx(0.7), fx(70.0));
    let d2 = cosmology.radial_comoving_distance(z(2.0)).unwrap();
    let d25 = cosmology.radial_comoving_distance(z(2.5)).unwrap();
    assert!(d25 > d2);
}

#[test]
fn luminosity_and_angular_distances_relate_by_one_plus_z_squared() {
    let omegas = omegas(0.286, 0.714, 0.05);
    let cosmology = FLRWCosmology::new(None, None, fx(69.6), omegas, None, None, None).unwrap();
    let dl = cosmology.luminosity_distance(z(1.0)).unwrap().0 as f64;
    let da = cosmology.angular_diameter_distance(z(1.0)).unwrap().0 as f64;
    assert!((dl / da - 4.0).abs() < 1e-9);
}

#[test]
fn expansion_undefined_gives_none() {
    // Dark energy this strong makes E(z)² negative before z = 3.
    let omegas = omegas(0.0, 3.0, 0.0);
    let cosmology = FLRWCosmology::new(None, None, fx(70.0), omegas, None, None, None).unwrap();
    assert!(cosmology.E_squared(z(3.0)).0 < 0);
    assert_eq!(cosmology.radial_comoving_distance(z(3.0)), None);
    assert_eq!(cosmology.transverse_comoving_distance(z(3.0)), None);
    assert!(cosmology.lookback_time(z(3.0)).is_none());
}

#[test]
fn comoving_volume() {
    let omegas = omegas(0.27, 0.73, 0.044);
    let cosmology = FLRWCosmology::new(None, None, fx(70.0), omegas, None, None, None).unwrap();
    // Mpc^3, fixed-point.
    assert!(cosmology.comoving_volume(z(3.0)).unwrap() > 1179361698730 * SCALE);
    assert!(cosmology.comoving_volume(z(3.0)).unwrap() < 1179470000000 * SCALE);
}

/// Hogg's closed form, in floating point, from the library's own distances.
fn volume_by_formula(c: &FLRWCosmology, v: f64) -> f64 {
    let s = SCALE as f64;
    let dm = c.transverse_comoving_distance(z(v)).unwrap().0 as f64 / s;
    let dh = c.hubble_distance().0 as f64 / s;
    let k = c.omega_k(z(v)).0 as f64 / s;
    let q = dm / dh;
    let coefficient = 4.0 * std::f64::consts::PI * dh.powi(3) / (2.0 * k);
    let t1 = q * (1.0 + k * q * q).sqrt();
    let t2 = if k > 0.0 {
        (k.sqrt() * q).asinh() / k.sqrt()
    } else {
        ((-k).sqrt() * q).asin() / (-k).sqrt()
    };
    coefficient * (t1 - t2)
}

#[test]
fn open_and_closed_comoving_volumes() {
    let open = FLRWCosmology::new(None, None, fx(69.6), omegas(0.286, 0.0, 0.05), None, None, None)
        .unwrap();
    let closed = FLRWCosmology::new(None, None, fx(69.6), omegas(0.286, 0.8, 0.05), None, None, None)
        .unwrap();
    for (c, v) in [(&open, 3.0), (&closed, 2.0)] {
        let got = c.comoving_volume(z(v)).unwrap() as f64 / SCALE as f64;
        let expected = volume_by_formula(c, v);
        assert!(((got - expected) / expected).abs() < 1e-6, "{} vs {}", got, expected);
    }
}

#[test]
fn flat_comoving_volume_is_sphere_of_transverse_distance() {
    let c = FLRWCosmology::two_component(fx(0.3), fx(0.7), fx(70.0));
    let dm = c.transverse_comoving_distance(z(1.0)).unwrap().0 as f64 / SCALE as f64;
    let got = c.comoving_volume(z(1.0)).unwrap() as f64 / SCALE as f64;
    let expected = 4.0 * std::f64::consts::PI * dm.powi(3) / 3.0;
    assert!(((got - expected) / expected).abs() < 1e-9);
    assert_eq!(c.comoving_volume(z(0.0)), Some(0));
}

#[test]
fn comoving_volumes_beyond_twenty_thousand_mpc() {
    let s = SCALE as f64;
    // Flat with a low Hubble constant: D_M about 22000 Mpc.
    let flat = FLRWCosmology::new(None, None, fx(20.0), omegas(0.3, 0.7, 0.0), None, None, None)
        .unwrap();
    let dm = flat.transverse_comoving_distance(z(3.0)).unwrap().0 as f64 / s;
    assert!(dm > 20000.0);
    let got = flat.comoving_volume(z(3.0)).unwrap() as f64 / s;
    let expected = 4.0 * std::f64::consts::PI * dm.powi(3) / 3.0;
    assert!(((got - expected) / expected).abs() < 1e-9);
    // Empty (open) universe, D_M about 23000 Mpc.
    let empty = FLRWCosmology::new(None, None, fx(70.0), omegas(0.0, 0.0, 0.0), None, None, None)
        .unwrap();
    assert!(empty.transverse_comoving_distance(z(10.0)).unwrap().0 as f64 / s > 20000.0);
    let got = empty.comoving_volume(z(10.0)).unwrap() as f64 / s;
    let expected = volume_by_formula(&empty, 10.0);
    assert!(((got - expected) / expected).abs() < 1e-6, "{} vs {}", got, expected);
    // Closed, with a low Hubble constant.
    let closed = FLRWCosmology::new(None, None, fx(20.0), omegas(0.1, 0.91, 0.0), None, None, None)
        .unwrap();
    assert!(closed.transverse_comoving_distance(z(3.0)).unwrap().0 as f64 / s > 20000.0);
    let got = closed.comoving_volume(z(3.0)).unwrap() as f64 / s;
    let expected = volume_by_formula(&closed, 3.0);
    assert!(((got - expected) / expected).abs() < 1e-6, "{} vs {}", got, expected);
}

#[test]
fn open_transverse_distance_with_large_argument() {
    // Empty universe: Omega_k(z) = 1 and D_C = D_H ln(1 + z), so the sinh
    // argument at z = 100 is ln 101, about 4.6, and D_M = D_H (101 - 1/101) / 2.
    let empty = FLRWCosmology::new(None, None, fx(70.0), omegas(0.0, 0.0, 0.0), None, None, None)
        .unwrap();
    let s = SCALE as f64;
    let dh = empty.hubble_distance().0 as f64 / s;
    let dm = empty.transverse_comoving_distance(z(100.0)).unwrap().0 as f64 / s;
    let expected = dh * (101.0 - 1.0 / 101.0) / 2.0;
    assert!(((dm - expected) / expected).abs() < 1e-4, "{} vs {}", dm, expected);
    let dc = empty.radial_comoving_distance(z(100.0)).unwrap().0 as f64 / s;
    assert!(((dm - dh * (dc / dh).sinh()) / dm).abs() < 1e-9);
}

#[test]
fn closed_transverse_distance_matches_sine() {
    let closed = FLRWCosmology::new(None, None, fx(69.6), omegas(0.286, 0.8, 0.05), None, None, None)
        .unwrap();
    let s = SCALE as f64;
    let dh = closed.hubble_distance().0 as f64 / s;
    let k = -(closed.omega_k(z(2.0)).0 as f64 / s);
    let dc = closed.radial_comoving_distance(z(2.0)).unwrap().0 as f64 / s;
    let dm = closed.transverse_comoving_distance(z(2.0)).unwrap().0 as f64 / s;
    let expected = dh / k.sqrt() * (k.sqrt() * dc / dh).sin();
    assert!(((dm - expected) / expected).abs() < 1e-9);
}

#[test]
fn open_comoving_volume_with_large_asinh_argument() {
    // Omega_k0 = 0.5 with dark energy only: at z = 60 the asinh argument
    // sqrt(Omega_k) D_M / D_H is above 100.
    let c = FLRWCosmology::new(None, None, fx(70.0), omegas(0.0, 0.5, 0.0), None, None, None)
        .unwrap();
    let s = SCALE as f64;
    let dm = c.transverse_comoving_distance(z(60.0)).unwrap().0 as f64 / s;
    let dh = c.hubble_distance().0 as f64 / s;
    let k = c.omega_k(z(60.0)).0 as f64 / s;
    assert!(k.sqrt() * dm / dh > 100.0);
    let got = c.comoving_volume(z(60.0)).unwrap() as f64 / s;
    let expected = volume_by_formula(&c, 60.0);
    assert!(((got - expected) / expected).abs() < 1e-6, "{} vs {}", got, expected);
}
