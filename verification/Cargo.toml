[package]
name = "testito"
version = "0.1.0"
edition = "2021"
publish = false

[dependencies]
chrono = "0.4"
pulldown-cmark = "0.12"
sha2 = "0.10"
hex = "0.4"
urlencoding = "2"
anyhow = "1"
askama = "0.12"
axum = "0.7"
clap = { version = "4", features = ["derive"] }
directories = "5"
rusqlite = { version = "0.31", features = ["bundled"] }
serde = { version = "1", features = ["derive"] }
serde_json = "1"
tokio = { version = "1", features = ["full"] }
tracing = "0.1"
tracing-subscriber = { version = "0.3", features = ["env-filter"] }

[dev-dependencies]
tempfile = "3"
