[package]
name = "fitness_challenge"
version = "0.1.0"
edition = "2021"
publish = false

[dependencies]
anyhow = "1"
chrono = "0.4"
hyper = { version = "0.14", features = ["full"] }
rand = "0.8"
serde = { version = "1", features = ["derive"] }
serde_json = "1"
serde_rusqlite = "*"
tokio = { version = "1", features = ["full"] }
uuid = { version = "1", features = ["v4"] }
