[package]
name = "try_replay"
version = "0.1.0"
edition = "2021"
publish = false

[dependencies]
hex = "0.4"

[dev-dependencies]
parity-scale-codec = "3"
sp-weights = "*"
