[package]
name = "chathub"
version = "0.1.0"
edition = "2021"
publish = false

[dependencies]
pbkdf2 = "=0.6.0"
serde = { version = "=1.0.229", features = ["derive"] }
uuid = { version = "=1.27.0", features = ["v4"] }
derive_more = { version = "=2.1.1", features = ["display", "error"] }
