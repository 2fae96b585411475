[package]
name = "remote_probe"
version = "0.1.0"
edition = "2021"
publish = false

[dependencies]
memprocfs = "*"
anyhow = "*"
serde = { version = "*", features = ["derive"] }
serde_json = "*"
