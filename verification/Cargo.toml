[package]
name = "stable_storage"
version = "0.1.0"
edition = "2021"
publish = false

[dependencies]
sha2 = "0.10"
base64 = "0.22"
tokio = { version = "1", features = ["fs", "io-util"] }
async-trait = "0.1"
