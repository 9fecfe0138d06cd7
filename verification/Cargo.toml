[package]
name = "sonos_controller"
version = "0.1.0"
edition = "2021"
publish = false

[dependencies]
roxmltree = "=0.21.2"
url = "=2.5.8"
regex = "=1.13.1"
urlencoding = "=2.1.3"
serde = { version = "=1.0.229", features = ["derive"] }
serde_json = "=1.0.154"
reqwest = { version = "=0.12.28", default-features = false }
log = "=0.4.35"
open = "=5.4.5"
tauri = { version = "=2.12.5", default-features = false }
tauri-plugin-log = { version = "=2.10.1", default-features = false }
