use cosmocalc::{
    CosmoError, DimensionlessPositiveFloat, FLRWCosmology, FloatingPointUnit, Gyr, OmegaFactors,
    PositiveFloat, Redshift, SCALE,
};

/// Raw fixed-point value of a decimal number.
fn fx(v: f64) -> i128 {
    (v * SCALE as f64).round() as i128
}

/// Decimal value of a raw fixed-point number.
fn fl(raw: i128) -> f64 {
    raw as f64 / SCALE as f64
}

fn z(v: f64) -> Redshift {
    Redshift::new(fx(v))
}

fn standard() -> FLRWCosmology {
    let omegas = OmegaFactors::new(fx(0.27), fx(0.73), fx(0.044)).unwrap();
    FLRWCosmology::new(None, None, fx(70.0), omegas, None, None, None).unwrap()
}

#[test]
fn hubble_distance_and_time() {
    let omegas = OmegaFactors::new(fx(0.27), fx(0.73), fx(0.044)).unwrap();
    let cosmology = FLRWCosmology::new(None, None, fx(70.0), omegas, None, None, None).unwrap();

    assert!(cosmology.is_flat());

    // Little h for 70 km s^{-1} Mpc^{-1} should be 0.70
    assert_eq!(
        cosmology.little_h(),
        DimensionlessPositiveFloat::new(fx(0.70)).unwrap()
    );

    // Should be around 3000 h^-1 Mpc
    assert!(fl(cosmology.hubble_distance_little_h()) > 2950.0);
    assert!(fl(cosmology.hubble_distance_little_h()) < 3000.0);

    // For H_0 = 70, should be 4285.7 Mpc
    assert!(fl(cosmology.hubble_distance().0) > 4000.0);
    assert!(fl(cosmology.hubble_distance().0) < 4500.0);

    // D_H in units of h^{-1} Mpc should be equal to D_H in units of Mpc
    assert!(
        fl(cosmology.hubble_distance_little_h())
            - (fl(cosmology.hubble_distance().0) * fl(cosmology.little_h().0))
            < 0.01
    );

    // t_H should be ~3e17 h^-1 seconds so t_H = 4e17 if h=0.70
    assert!(fl(cosmology.hubble_time().0) > 4.4e17);
    assert!(fl(cosmology.hubble_time().0) < 4.5e17);
}

#[test]
fn densities() {
    let omegas = OmegaFactors::new(fx(0.27), fx(0.73), fx(0.044)).unwrap();
    let cosmology = FLRWCosmology::new(None, None, fx(70.0), omegas, None, None, None).unwrap();

    // Critical densities are whole numbers of 1e-36 kg/m^3.
    assert!(cosmology.critical_density(Redshift::zero()).0 as f64 * 1e-36 > 8.7e-27);
    assert!(cosmology.critical_density(Redshift::zero()).0 as f64 * 1e-36 < 9.5e-27);
}

#[test]
fn lookback_time() {
    let omegas = OmegaFactors::new(fx(0.27), fx(0.73), fx(0.044)).unwrap();
    let cosmology = FLRWCosmology::new(None, None, fx(70.0), omegas, None, None, None).unwrap();
    assert!(cosmology.lookback_time(Redshift::zero()).unwrap() == Gyr::zero());
    assert!(cosmology.lookback_time(z(3.0)).unwrap() > Gyr::new(fx(11.64)));
    assert!(cosmology.lookback_time(z(3.0)).unwrap() < Gyr::new(fx(11.65)));
}

#[test]
fn lookback_distance_is_light_travel_distance() {
    let cosmology = standard();
    let t = fl(cosmology.lookback_time(z(3.0)).unwrap().0);
    let d = fl(cosmology.lookback_distance(z(3.0)).unwrap().0);
    // c t in Mpc: Gyr in seconds times c, over meters per Mpc.
    let ct = t * 3.154e16 * 299792458.0 / 3.086e22;
    assert!((d - ct).abs() / ct < 1e-6);
    assert_eq!(cosmology.lookback_distance(z(0.0)).unwrap().0, 0);
}

#[test]
fn dark_matter_is_matter_minus_baryons() {
    let o = OmegaFactors::new(fx(0.286), fx(0.714), fx(0.05)).unwrap();
    assert_eq!(o.omega_dark_matter_density_0().0, fx(0.236));
    let o = OmegaFactors::new(fx(0.3), fx(0.7), fx(0.3)).unwrap();
    assert_eq!(o.omega_dark_matter_density_0().0, 0);
}

#[test]
fn curvature_density_sums_to_one() {
    let o = OmegaFactors::new(fx(0.286), fx(0.8), fx(0.05)).unwrap();
    let k = o.curvature_density_0(
        cosmocalc::DimensionlessFloat(fx(0.001)),
        cosmocalc::DimensionlessFloat(fx(0.002)),
    );
    assert_eq!(k.0, fx(1.0 - 0.286 - 0.8 - 0.001 - 0.002));
}

#[test]
fn omega_factor_errors() {
    assert!(matches!(
        OmegaFactors::new(fx(0.1), fx(0.7), fx(0.2)),
        Err(CosmoError::InvalidCosmology)
    ));
    assert!(matches!(
        OmegaFactors::new(fx(0.3), fx(-0.1), fx(0.05)),
        Err(CosmoError::InvalidValue)
    ));
    // The baryon check comes first.
    assert!(matches!(
        OmegaFactors::new(fx(-0.2), fx(0.7), fx(-0.1)),
        Err(CosmoError::InvalidCosmology)
    ));
    assert!(matches!(
        OmegaFactors::new(fx(-0.2), fx(0.7), fx(-0.3)),
        Err(CosmoError::InvalidValue)
    ));
}

#[test]
fn cosmology_errors() {
    let o = || OmegaFactors::new(fx(0.3), fx(0.7), fx(0.05)).unwrap();
    // Default N_eff 3.04 against no masses.
    assert!(matches!(
        FLRWCosmology::new(None, None, fx(70.0), o(), None, None, Some(vec![])),
        Err(CosmoError::NeutrinoCountMismatch)
    ));
    assert!(matches!(
        FLRWCosmology::new(None, None, fx(70.0), o(), Some(fx(-1.0)), None, None),
        Err(CosmoError::InvalidValue)
    ));
    assert!(matches!(
        FLRWCosmology::new(None, None, fx(5.0), o(), None, None, None),
        Err(CosmoError::OutOfRange)
    ));
    assert!(matches!(
        FLRWCosmology::new(None, None, fx(70.0), o(), Some(fx(2000.0)), None, None),
        Err(CosmoError::OutOfRange)
    ));
}

#[test]
fn is_flat_compares_exactly() {
    assert!(standard().is_flat());
    let o = OmegaFactors::new(fx(0.3), fx(0.699999999999), fx(0.05)).unwrap();
    let c = FLRWCosmology::new(None, None, fx(70.0), o, None, None, None).unwrap();
    assert!(!c.is_flat());
    assert_eq!(c.omega_tot0().0, SCALE);
}

#[test]
fn expansion_is_one_today() {
    let omegas = OmegaFactors::new(fx(0.25), fx(0.7), fx(0.05)).unwrap();
    let radiative = FLRWCosmology::new(
        None,
        None,
        fx(69.6),
        omegas,
        Some(fx(2.7255)),
        None,
        None,
    )
    .unwrap();
    for c in [standard(), radiative] {
        assert_eq!(c.E(Redshift::zero()).0, SCALE);
        assert_eq!(c.H(Redshift::zero()), c.H_0);
    }
}

#[test]
fn expansion_rate_values() {
    // E(1)^2 = 0.3 * 8 + 0.7 = 3.1 for a flat two-component cosmology.
    let c = FLRWCosmology::two_component(fx(0.3), fx(0.7), fx(70.0));
    assert_eq!(c.E_squared(z(1.0)).0, fx(3.1));
    assert!((fl(c.E(z(1.0)).0) - 3.1f64.sqrt()).abs() < 1e-11);
    assert!((fl(c.H(z(1.0))) - 70.0 * 3.1f64.sqrt()).abs() < 1e-9);
}

#[test]
fn critical_density_shortcut_matches_general_formula() {
    let c = standard();
    let today = c.critical_density(Redshift::zero()).0;
    assert!(today > 0);
    // Just above zero the general formula is used and differs by E(z)^2 only.
    let near = c.critical_density(Redshift(1)).0;
    assert!((near - today).abs() <= 1);
    let at_one = c.critical_density(z(1.0)).0 as f64;
    let e2 = fl(c.E_squared(z(1.0)).0);
    assert!((at_one / today as f64 - e2).abs() < 1e-8);
}

#[test]
fn densities_at_redshift() {
    let c = standard();
    assert_eq!(c.omega_m(Redshift::zero()).0, fx(0.27));
    assert_eq!(c.omega_de(Redshift::zero()).0, fx(0.73));
    assert_eq!(c.omega_b(Redshift::zero()).0, fx(0.044));
    assert_eq!(c.omega_dm(Redshift::zero()).0, fx(0.226));
    assert_eq!(c.omega_k(Redshift::zero()).0, 0);
    assert_eq!(c.omega_tot(Redshift::zero()).0, SCALE);
    let m = fl(c.omega_m(z(2.0)).0);
    let expected = 0.27 * 27.0 / (0.27 * 27.0 + 0.73);
    assert!((m - expected).abs() < 1e-9);
    assert!((fl(c.omega_tot(z(2.0)).0) - 1.0).abs() < 1e-9);
}

#[test]
fn radiation_densities() {
    let omegas = OmegaFactors::new(fx(0.25), fx(0.7), fx(0.05)).unwrap();
    let c = FLRWCosmology::new(None, None, fx(70.0), omegas, Some(fx(2.7255)), None, None).unwrap();
    // Omega_gamma h^2 is about 2.47e-5.
    let g = fl(c.omega_gamma0().0);
    assert!((g * 0.49 - 2.47e-5).abs() < 0.02e-5);
    // Omega_nu = 3.04 * 7/8 * (4/11)^(4/3) * Omega_gamma.
    let nu = fl(c.omega_nu0().0);
    assert!((nu / g - 3.04 * 0.875 * (4.0f64 / 11.0).powf(4.0 / 3.0)).abs() < 1e-6);
    assert_eq!(c.omega_k0().0, SCALE - fx(0.25) - fx(0.7) - c.omega_gamma0().0 - c.omega_nu0().0);
    assert!(!c.is_flat());
    assert!(fl(c.omega_gamma(z(1.0)).0) > g);
    assert!(fl(c.omega_nu(z(1.0)).0) > nu);
}

#[test]
fn temperatures() {
    let omegas = OmegaFactors::new(fx(0.25), fx(0.7), fx(0.05)).unwrap();
    let c = FLRWCosmology::new(None, None, fx(70.0), omegas, Some(fx(2.7255)), None, None).unwrap();
    assert_eq!(c.T_CMB(Redshift::zero()).0, fx(2.7255));
    assert_eq!(c.T_CMB(z(1.0)).0, fx(5.451));
    let t_nu = fl(c.T_nu(Redshift::zero()).0);
    assert!((t_nu - 2.7255 * (4.0f64 / 11.0).powf(1.0 / 3.0)).abs() < 1e-9);
    assert_eq!(standard().T_CMB(z(1.0)).0, 0);
    assert_eq!(standard().T_nu(z(1.0)).0, 0);
}

#[test]
fn scale_factor_values() {
    let c = standard();
    assert_eq!(c.scale_factor(z(1.0)), PositiveFloat(fx(0.5)));
    assert_eq!(c.scale_factor(z(0.0)), PositiveFloat(SCALE));
}

#[test]
fn two_component_has_no_radiation() {
    let c = FLRWCosmology::two_component(fx(0.3), fx(0.6), fx(70.0));
    assert_eq!(c.omega_gamma0().0, 0);
    assert_eq!(c.omega_nu0().0, 0);
    assert_eq!(c.omega_b0().0, 0);
    assert_eq!(c.omega_dm0().0, fx(0.3));
    assert_eq!(c.omega_k0().0, fx(0.1));
    assert!(!c.is_flat());
}

#[test]
fn hubble_scales_exact_values() {
    let c = standard();
    assert_eq!(c.hubble_distance().0, 4_282_749_400_000_000);
    assert_eq!(c.hubble_distance_little_h(), 2_997_924_580_000_000);
    assert_eq!(c.hubble_time().0, 440_857_142_857_142_857 * SCALE);
    assert_eq!(c.little_h().0, fx(0.7));
}
