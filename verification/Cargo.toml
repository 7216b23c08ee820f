[package]
name = "crop_smoothing"
version = "0.1.0"
edition = "2021"
publish = false

[dependencies]
anyhow = "=1.0.104"
argh = "=0.1.19"
chrono = "=0.4.45"
image = { version = "=0.25.10", default-features = false }
usls = { version = "=0.1.11", features = ["db", "video", "viewer"] }
