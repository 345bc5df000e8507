[package]
name = "android_fs"
version = "0.1.0"
edition = "2021"
publish = false

[dependencies]
base64 = "=0.22.1"
serde = { version = "=1.0.229", features = ["derive"] }
serde_json = "=1.0.154"
thiserror = "=2.0.21"
glob = "=0.3.4"
tauri = { version = "=2.12.5", default-features = false }
tauri-plugin-fs = "=2.7.1"
