[package]
name = "nexus"
version = "0.1.0"
edition = "2021"
publish = false

[dependencies]
ciborium = "0.2"
ed25519-dalek = { version = "2", features = ["rand_core"] }
hex = "0.4"
rand = "0.8"
ring = "0.17"
serde = { version = "1", features = ["derive"] }
serde_json = { version = "1", features = ["preserve_order"] }
sha2 = "0.10"
thiserror = "1"
