[package]
name = "article_store"
version = "0.1.0"
edition = "2021"
publish = false

[dependencies]
sha1 = "0.10"
uuid = { version = "1", features = ["v4", "serde"] }
serde = { version = "1", features = ["derive"] }
serde_json = "1"
once_cell = "1"
tokio = { version = "1", features = ["rt", "sync"] }
rocket = { version = "0.5", features = ["json", "uuid", "secrets"] }
