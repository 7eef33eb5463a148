[package]
name = "mtui"
version = "0.1.0"
edition = "2021"
publish = false

[dependencies]
anyhow = "=1.0.104"
bytes = "=1.12.1"
crossterm = "=0.29.0"
futures-util = { version = "=0.3.34", default-features = false }
ratatui = { version = "=0.30.2", default-features = false, features = ["crossterm"] }
reqwest = { version = "=0.13.5", default-features = false, features = ["json", "stream"] }
rodio = { version = "=0.22.2", default-features = false, features = ["playback", "symphonia-aac", "symphonia-isomp4"] }
serde = { version = "=1.0.229", features = ["derive"] }
serde_json = "=1.0.154"
stream-download = { version = "=0.24.5", default-features = false, features = ["http", "reqwest"] }
tao = "*"
tokio = { version = "=1.54.1", features = ["rt", "rt-multi-thread", "time"] }
unicode-width = "=0.2.3"
wry = "*"
