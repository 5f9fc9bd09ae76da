[package]
name = "arm_core"
version = "0.1.0"
edition = "2021"
publish = false

[dependencies]
sha3 = "0.10"
k256 = { version = "0.13", features = ["arithmetic", "hash2curve", "ecdsa"] }
alloy-primitives = "1"
alloy-sol-types = "1"
serde = { version = "1", features = ["derive"] }
serde-big-array = "0.5"
bincode = { version = "2", features = ["serde"] }
thiserror = "2"
