[package]
name = "dash_plat"
version = "0.1.0"
edition = "2021"
publish = false

[dependencies]
anyhow = "1"
base64 = "=0.21.7"
borsh = "=0.10.4"
bytes = "1"
chrono = "=0.4.45"
clap = { version = "4", features = ["derive", "cargo"] }
ed25519 = { version = "=1.5.3", features = ["alloc", "pkcs8", "pem"] }
ed25519-dalek = "=1.0.1"
futures = "0.3"
hotstuff_rs = "=0.2.2"
im = "=15.1.0"
log = "0.4"
pkcs8 = { version = "=0.9.0", features = ["alloc", "pem"] }
rand = "=0.7.3"
serde = { version = "1", features = ["derive"] }
serde_yaml = "0.9"
sha2 = "=0.10.9"
simple_logger = "4"
tokio = { version = "1", features = ["full"] }
tokio-util = { version = "0.7", features = ["codec"] }
