[package]
name = "sculptor"
version = "0.1.0"
edition = "2021"
publish = false

[dependencies]
ring = "*"
base64 = "*"
rand = "*"
chrono = "*"
uuid = { version = "*", features = ["serde"] }
serde = { version = "*", features = ["derive"] }
serde_json = "*"
toml = "*"
axum = { version = "*", features = ["ws"] }
tokio = { version = "*", features = ["full"] }
dashmap = "*"
reqwest = { version = "*", default-features = false, features = ["json"] }
anyhow = "*"

[dev-dependencies]
hex = "*"
