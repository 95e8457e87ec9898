[package]
name = "engine"
version = "0.1.0"
edition = "2021"
publish = false

[dependencies]
bevy_ecs = "0.14"
colored = "2"
rand = { version = "0.8", features = ["small_rng"] }
serde = { version = "1", features = ["derive"] }
serde_json = "1"
tracing = "0.1"
wasm-bindgen = "0.2"
