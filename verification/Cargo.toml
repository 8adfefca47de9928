[package]
name = "admin_auth"
version = "0.1.0"
edition = "2021"
publish = false

[dependencies]
hmac = "0.12"
sha2 = "0.10"
chrono = "0.4"
serde = { version = "1", features = ["derive"] }
ntex = { version = "2", features = ["tokio"] }
