[package]
name = "md_dir_builder"
version = "0.1.0"
edition = "2021"
publish = false

[dependencies]
ahash = "=0.8.12"
anyhow = "=1.0.104"
axum = { version = "=0.5.17", features = ["ws", "headers"] }
bytes = "=1.12.1"
chrono = "=0.4.45"
clap = { version = "=3.2.25", features = ["derive"] }
crc = "=3.4.0"
futures = "=0.3.34"
inotify = "=0.10.2"
json = "=0.12.4"
log = "=0.4.34"
maud = "0.27"
md-icons = { version = "=0.4.0", features = ["maud"] }
notify = "=5.2.0"
pulldown-cmark = { version = "=0.9.6", default-features = false }
regex = "=1.13.1"
serde = { version = "=1.0.229", features = ["derive"] }
simplelog = "=0.12.2"
tokio = { version = "=1.54.1", features = ["full"] }
urlencoding = "=2.1.3"
watchman_client = "=0.8.0"
webbrowser = "=0.8.15"
