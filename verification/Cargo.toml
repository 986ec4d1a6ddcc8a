[package]
name = "flight_core"
version = "0.1.0"
edition = "2021"
publish = false

[dependencies]
godot = "*"
nalgebra = { version = "*", features = ["serde-serialize"] }
rand = "0.8"
rand_distr = "0.4"
serde = { version = "1", features = ["derive"] }
toml = "0.8"
