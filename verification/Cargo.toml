[package]
name = "desktop_recorder"
version = "0.1.0"
edition = "2021"
publish = false

[dependencies]
serde = { version = "*", features = ["derive"] }
serde_json = "*"
chrono = "*"
base64 = "*"
uuid = { version = "*", features = ["v4"] }
zip = { version = "*", default-features = false }
