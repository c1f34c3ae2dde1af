[package]
name = "evtoggle"
version = "0.1.0"
edition = "2021"
publish = false

[dependencies]
evdev = "0.12"
anyhow = "1"
serde = { version = "1", features = ["derive"] }
serde_yaml = "0.9"
