[package]
name = "plat"
version = "0.1.0"
edition = "2021"
publish = false

[dependencies]
bevy = { version = "0.14", default-features = false }
serde_json = { version = "1" }
