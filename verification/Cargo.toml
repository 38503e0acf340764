[package]
name = "compute_average_income"
version = "0.1.0"
edition = "2021"
publish = false

[dependencies]
fastrand = "2"
rand = { version = "0.8", features = ["small_rng"] }
