[package]
name = "itajara"
version = "0.1.0"
edition = "2021"
publish = false

[dependencies]
rand = { version = "0.8", features = ["small_rng"] }
cpal = "0.15"
coreaudio-sys = "0.2"
core-foundation-sys = "0.8"
