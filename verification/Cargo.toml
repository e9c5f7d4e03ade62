[package]
name = "freivald"
version = "0.1.0"
edition = "2021"
publish = false

[dependencies]
ark-bls12-381 = "0.4"
ark-ff = "0.4"
nalgebra = { version = "0.32", default-features = false, features = ["std"] }
rand = "0.8"
