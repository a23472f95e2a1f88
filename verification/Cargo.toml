[package]
name = "novelty"
version = "0.1.0"
edition = "2021"
publish = false

[dependencies]
hann-rs = "*"
ndarray = "*"
ndarray-conv = "*"
ndarray-stats = "*"
wavers = "*"
clap = { version = "*", features = ["derive"] }
anyhow = "*"
