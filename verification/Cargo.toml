[package]
name = "crank"
version = "0.1.0"
edition = "2021"
publish = false

[dependencies]
serum_dex = "=0.4.0"
solana-program = "=1.18.26"
solana-sdk = "=1.18.26"
spl-token = { version = "=3.5.0", features = ["no-entrypoint"] }
rand = "=0.7.3"
anyhow = "1"
clap = { version = "=3.2.25", features = ["derive"] }
threadpool = "=1.8.1"
serde = { version = "1", features = ["derive"] }
serde_json = "1"
serde_yaml = "=0.8.26"
log = "0.4"
simplelog = "=0.10.2"
bincode = "=1.3.3"
base64 = "=0.13.1"
