[package]
name = "javascript_adapter"
version = "0.1.0"
edition = "2021"
publish = false

[dependencies]
wasm-bindgen = { version = "0.2", features = ["serde-serialize"] }
