[package]
name = "oxiddd"
version = "0.1.0"
edition = "2021"
publish = false

[dependencies]
sha2 = "*"
hex = "*"
aligned-vec = "*"
crossbeam-channel = "*"
indicatif = "*"
nix = "*"
chrono = "*"
clap = { version = "*", features = ["derive"] }
