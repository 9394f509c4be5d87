[package]
name = "booru_ingest"
version = "0.1.0"
edition = "2021"
publish = false

[dependencies]
base64 = "0.22"
serde_json = "1"
serde = { version = "1", features = ["derive"] }
szurubooru-client = "*"
reqwest = { version = "0.12", features = ["json", "multipart"] }
tokio = { version = "1", features = ["full"] }
futures = "0.3"
indicatif = "0.17"
toml = "*"
