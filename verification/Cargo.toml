[package]
name = "openusage"
version = "0.1.0"
edition = "2021"
publish = false

[dependencies]
base64 = "0.22"
log = "0.4"
serde = { version = "1", features = ["derive"] }
serde_json = "1"
tauri = { version = "=2.12.5", default-features = false, features = ["wry", "tray-icon", "objc-exception", "common-controls-v6"] }
objc2 = "0.6"
objc2-foundation = "0.3"
