//! Distances, densities and expansion history of homogeneous, isotropic
//! (FLRW) cosmologies, computed in exact decimal fixed point.
#![allow(non_snake_case)]
#![allow(non_camel_case_types)]

pub mod constants;
pub mod cosmology;
pub mod distances;
pub mod error;
pub mod fixed;
pub mod redshift;
pub mod units;
pub mod utils;

pub use cosmology::{FLRWCosmology, OmegaFactors};
pub use distances::Distances;
pub use error::CosmoError;
pub use fixed::SCALE;
pub use redshift::Redshift;
pub use units::{
    energy::{eV, Joule},
    length::{Kilometer, Meter, Mpc},
    mass::{Gram, Kilogram},
    temperature::Kelvin,
    time::{Gyr, Seconds},
    DimensionlessFloat, DimensionlessPositiveFloat, FloatingPointUnit, HInvMpc,
    KilogramsPerMeter3, KmPerSecPerMpc, PositiveFloat,
};
pub use utils::{energy_to_mass, mass_to_energy};
