[package]
name = "blind_threshold_bls"
version = "0.1.0"
edition = "2021"
publish = false

[dependencies]
threshold-bls = "=0.2.2"
bincode = "=1.3.3"
rand_chacha = "0.3"
rand_core = "0.6"
serde = { version = "=1.0.229", features = ["derive"] }
anyhow = "=1.0.104"
neon = "=1.1.2"
