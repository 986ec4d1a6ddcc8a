//! The weather and turbulence layer.
pub mod agent;
pub mod air;
pub mod bridge;
pub mod config;
pub mod curriculum;
pub mod laws;
pub mod levels;
pub mod normalizer;
pub mod readings;
pub mod system;
