[package]
name = "dynv6_update"
version = "0.1.0"
edition = "2021"
publish = false

[dependencies]
anyhow = "1"
nix = { version = "*", features = ["net"] }
reqwest = { version = "*", features = ["blocking"] }
