[package]
name = "lonecli"
version = "0.1.0"
edition = "2021"
publish = false

[dependencies]
bpci = "*"
clap = { version = "4", features = ["derive"] }
rand = { version = "0.9", features = ["small_rng"] }
signal-hook = "0.3"
