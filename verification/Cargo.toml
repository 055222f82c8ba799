[package]
name = "nitro_enclave"
version = "0.1.0"
edition = "2021"
publish = false

[dependencies]
anyhow = "1"
byteorder = "1"
nix = { version = "*", features = ["socket", "signal"] }
serde_json = "1"
