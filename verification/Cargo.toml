[package]
name = "browseraft"
version = "0.1.0"
edition = "2021"
publish = false

[dependencies]
rand = "0.6"
gloo = "0.2"
serde = { version = "1", features = ["derive"] }
wasm-bindgen = { version = "0.2", features = ["serde-serialize"] }
web-sys = { version = "0.3", features = ["BroadcastChannel", "MessageEvent"] }
