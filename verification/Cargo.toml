[package]
name = "ecp_sender"
version = "0.1.0"
edition = "2021"
publish = false

[dependencies]
nix = { version = "=0.31.3", features = ["poll"] }
rustable = "=0.2.2"

[dev-dependencies]
rand = "=0.8.8"
