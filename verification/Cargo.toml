[package]
name = "chirp"
version = "0.3.1"
edition = "2021"
publish = false

[dependencies]
chrono = "=0.4.45"
uuid = { version = "=1.29.0", features = ["v4"] }
fuzzy-matcher = "=0.3.7"
dirs = "=5.0.1"
regex-syntax = "=0.8.11"
rusqlite = { version = "=0.41.1", features = ["bundled"] }
serde = { version = "1", features = ["derive"] }
serde_json = "=1.0.154"
csv = "=1.4.0"
crossterm = "=0.29.0"
ratatui = "=0.30.2"
notify-rust = "=4.18.2"
