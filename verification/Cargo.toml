[package]
name = "solved_bot"
version = "0.1.0"
edition = "2021"
publish = false

[dependencies]
image = { version = "=0.23.14", default-features = false, features = ["png", "jpeg"] }
serde = { version = "=1.0.229", features = ["derive"] }
serde_json = "=1.0.154"
telbot-cf-worker = "=0.3.0"
web-sys = { version = "=0.3.106", features = ["console"] }
worker = "=0.0.7"
