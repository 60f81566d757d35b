[package]
name = "ts_engine"
version = "0.1.0"
edition = "2021"
publish = false

[dependencies]
bitvec = "1"
counter = "0.5"
rand = { version = "0.7", features = ["small_rng"] }
