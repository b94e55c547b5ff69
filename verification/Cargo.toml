[package]
name = "haneul_staking"
version = "0.1.0"
edition = "2021"
publish = false

[dependencies]
tonic = { version = "=0.14.9", default-features = false }
prost-types = "=0.14.4"

[dev-dependencies]
bcs = "=0.1.6"
