[package]
name = "devterm_core"
version = "0.1.0"
edition = "2021"
publish = false

[dependencies]
uuid = { version = "1", features = ["v4"] }
notify = "*"
portable-pty = "*"
serde = { version = "1", features = ["derive"] }
serde_json = "1"
walkdir = "2"
tauri = { version = "2", default-features = false }
