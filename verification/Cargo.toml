[package]
name = "wireguard_tunnel"
version = "0.1.0"
edition = "2021"
publish = false

[dependencies]
sha2 = "0.10"
tokio = { version = "1", features = ["fs", "io-util", "rt", "sync"] }
anyhow = "1"
thiserror = "2"
log = "0.4"
async-trait = "0.1"

[dev-dependencies]
rand = "0.8"
base64 = "0.22"
ipnetwork = "0.20"
