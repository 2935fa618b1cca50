[package]
name = "ollama_proxy"
version = "0.1.0"
edition = "2021"
publish = false

[dependencies]
serde = { version = "*", features = ["derive"] }
serde_json = "*"
tokio = { version = "*", features = ["rt-multi-thread", "net", "macros"] }
axum = "*"
reqwest = { version = "*", default-features = false, features = ["json"] }
