[package]
name = "exonum"
version = "0.1.0"
edition = "2021"
publish = false

[dependencies]
ed25519-dalek = "*"
sha2 = "*"
getrandom = "*"
futures = "0.1"
tokio-core = "0.1"
