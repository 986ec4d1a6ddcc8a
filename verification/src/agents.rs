//! The agents that fly the aircraft: their configuration, their registry, and
//! the built-in ones.
pub mod config;
pub mod d3qn;
pub mod observe;
pub mod registry;
pub mod rule_based;
