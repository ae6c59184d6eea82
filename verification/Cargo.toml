[package]
name = "replication"
version = "0.1.0"
edition = "2021"
publish = false

[dependencies]
futures = "=0.3.34"
futures-util = "=0.3.34"
uuid = { version = "=1.29.0", features = ["v4", "serde"] }
postcard = { version = "=1.1.3", features = ["alloc"] }
serde = { version = "=1.0.229", features = ["derive"] }
serde_json = "=1.0.154"
anyhow = "=1.0.104"
rand = "=0.8.8"
aseprite = "=0.1.3"
async-std = "=1.13.2"
async-tungstenite = { version = "=0.35.0", features = ["async-std-runtime"] }
ws_stream_wasm = "=0.7.5"
console_error_panic_hook = "=0.1.7"
bevy = { version = "0.8", default-features = false, features = ["bevy_asset", "bevy_winit", "render", "png", "x11"] }
