[package]
name = "k4bank"
version = "0.1.0"
edition = "2021"
publish = false

[dependencies]
ksynth = "=0.22.0"
syxpack = "=0.20.0"
clap = { version = "=4.6.7", features = ["derive"] }
