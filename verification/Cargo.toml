[package]
name = "wormhole_io"
version = "0.1.0"
edition = "2021"
publish = false

[dependencies]
anyhow = "1"
async-std = "1"
async-trait = "0.1"
async-tungstenite = { version = "*", features = ["async-std-runtime"] }
futures = "0.3"
fuzzt = "*"
log = "0.4"
rand = "0.8"
serde_json = "1"
