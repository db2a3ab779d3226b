[package]
name = "drand_relay"
version = "0.1.0"
edition = "2021"
publish = false

[dependencies]
drand-verify = "*"
cosmwasm-std = "=1.5.11"
cosmwasm-storage = "=1.5.2"
serde = { version = "=1.0.229", features = ["derive"] }
schemars = "=0.8.22"
