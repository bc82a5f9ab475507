[package]
name = "prayer"
version = "0.1.0"
edition = "2021"
publish = false

[dependencies]
urlencoding = "=2.1.3"
audiotags = "=0.5.0"
crossterm = "=0.28.1"
dirs = "=5.0.1"
image = { version = "=0.25.10", default-features = false, features = ["png", "jpeg"] }
mp4ameta = "=0.11.0"
regex = "1"
ratatui = "=0.29.0"
ratatui-image = { version = "=8.1.1", default-features = false, features = ["crossterm"] }
reqwest = { version = "=0.12.28", default-features = false, features = ["blocking", "json"] }
serde = { version = "=1.0.229", features = ["derive"] }
serde_json = "=1.0.154"
symphonia = { version = "=0.5.5", features = ["mp3", "aac", "isomp4", "alac"] }
toml = "=0.8.23"
walkdir = "=2.5.0"
