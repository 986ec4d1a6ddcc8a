//! The core of a flight simulator, verified: the dynamics of an aircraft, its
//! aerodynamics, air, wind, weather and ground, its avionics, the agents that
//! fly it, and a wind tunnel to test it in.
//!
//! Numbers are those of IEEE 754: `binary64` and `single` hold their
//! arithmetic, whose contracts say what each operation gives bit by bit. The
//! elementary functions are those of the machine (see `elementary`): contracts
//! say which of them are asked for and with which arguments.
pub mod aero;
pub mod agents;
pub mod atmosphere;
pub mod avionics;
pub mod binary64;
pub mod cockpit;
pub mod config;
pub mod elementary;
pub mod env;
pub mod flight;
pub mod integrator;
pub mod layers;
pub mod literal;
pub mod pressure;
pub mod prng;
pub mod remainder;
pub mod response;
pub mod rotation;
pub mod rounding;
pub mod separation;
pub mod session;
pub mod shape;
pub mod simulator;
pub mod single;
pub mod square_root;
pub mod state;
pub mod terrain;
pub mod text;
pub mod tunnel;
pub mod vector;
pub mod voxel;
pub mod weather;
pub mod wind;
