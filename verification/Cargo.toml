[package]
name = "image_orchestrator"
version = "0.1.0"
edition = "2021"
publish = false

[dependencies]
base64 = "*"
reqwest = { version = "*", default-features = false, features = ["blocking", "multipart", "json"] }
serde = { version = "*", features = ["derive"] }
serde_json = "*"
urlencoding = "*"
