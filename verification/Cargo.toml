[package]
name = "game_core"
version = "0.1.0"
edition = "2021"
publish = false

[dependencies]
wavefront = "0.2"
hecs = "*"
rand = { version = "0.8", default-features = false, features = ["small_rng"] }
