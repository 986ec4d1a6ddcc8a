//! The wind tunnel: the flow about a fixed aircraft, made visible by smoke.
pub mod bench;
pub mod body;
pub mod grid;
pub mod lattice;
pub mod linear;
pub mod reading;
pub mod settings;
pub mod smoke;
pub mod station;
pub mod vortex;
