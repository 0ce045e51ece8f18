//! A verified engine for plotting natural numbers on a polar spiral.
//!
//! Each natural number is mapped to a point whose radius and angle both
//! equal the number itself; points are classified by primality, scaled by a
//! zoom coefficient, and culled against a fixed viewport. This crate holds
//! the geometry, primality, registry and zoom-control logic; windowing,
//! rendering and the floating-point projection live outside it and hand it
//! plain integer offsets.

pub mod coeff;
pub mod primes;
pub mod registry;
pub mod state;
pub mod view;

pub use primes::is_prime;
