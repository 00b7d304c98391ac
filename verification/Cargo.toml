[package]
name = "observatory"
version = "0.1.0"
edition = "2021"
publish = false

[dependencies]
anyhow = "1"
axum = "0.7"
chrono = "0.4"
dirs = "5"
dotenvy = "0.15"
reqwest = { version = "0.12", default-features = false, features = ["json"] }
rusqlite = "0.31"
serde = { version = "1", features = ["derive"] }
serde_json = "1"
tokio = { version = "1", features = ["macros", "rt-multi-thread", "net", "time"] }
toml = "0.8"
