[package]
name = "vtools_core"
version = "0.1.0"
edition = "2021"
publish = false

[dependencies]
ffmpeg-cli = "*"
ffprobe = "*"
futures = "*"
serde = { version = "*", features = ["derive"] }
serde_json = "*"
