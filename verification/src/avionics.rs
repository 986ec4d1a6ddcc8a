//! The simulated avionics: sensors, flight controller, actuators, power.
pub mod actuator;
pub mod airspeed;
pub mod baro;
pub mod battery;
pub mod bus;
pub mod device;
pub mod esc;
pub mod fitted;
pub mod flight_controller;
pub mod gps;
pub mod imu;
pub mod magnetometer;
pub mod sensor_model;
pub mod stack;
pub mod system;
pub mod traits;
