[package]
name = "hsm"
version = "0.1.0"
edition = "2021"
publish = false

[dependencies]
bitcoin = "0.28"
blake3 = "1"
serde = { version = "1", features = ["derive"] }
