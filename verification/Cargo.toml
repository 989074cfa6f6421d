[package]
name = "tiltcore"
version = "0.1.0"
edition = "2021"
publish = false

[dependencies]
glam = "*"
serialport = { version = "*", default-features = false }

[dev-dependencies]
serde_json = "*"
