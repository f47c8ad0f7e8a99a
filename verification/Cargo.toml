[package]
name = "crafty"
version = "0.1.0"
edition = "2021"
publish = false

[dependencies]
rand = { version = "0.8", features = ["small_rng"] }
clap = { version = "4", features = ["derive"] }
bounded-vec-deque = "0.1"
winit = { version = "0.29", default-features = false, features = ["x11"] }
