[package]
name = "praxis_openai"
version = "0.1.0"
edition = "2021"
publish = false

[dependencies]
bytes = "1"
praxis-proxy-filter = { version = "0.7.5", default-features = false }
serde = { version = "1", features = ["derive"] }
serde_json = "1"
utoipa = "5"
