[package]
name = "wol-rs"
version = "0.1.0"
edition = "2021"
publish = false

[dependencies]
anyhow = "=1.0.104"
clap = { version = "=3.2.25", features = ["derive"] }
mac_address = "=1.1.8"
serde = { version = "=1.0.229", features = ["derive"] }
thiserror = "=1.0.69"
toml = "=0.8.23"
