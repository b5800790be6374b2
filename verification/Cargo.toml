[package]
name = "axdevice"
version = "0.1.0"
edition = "2021"
publish = false

[dependencies]
anyhow = "=1.0.104"
byte-unit = { version = "=5.2.6", default-features = false, features = ["byte"] }
log = "=0.4.35"
serde = { version = "=1.0.229", features = ["derive"] }
spin = "=0.10.1"
