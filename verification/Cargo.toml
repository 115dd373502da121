[package]
name = "site_search"
version = "0.1.0"
edition = "2021"
publish = false

[dependencies]
actix-cors = "0.7"
actix-web = { version = "4", default-features = false, features = ["macros"] }
anyhow = "1"
env_logger = "0.10"
futures = "0.3"
itertools = "0.12"
log = "0.4"
ndarray = "0.17"
ort = { version = "2.0.0-rc.15", default-features = false, features = ["std", "ndarray", "load-dynamic"] }
qdrant-client = { version = "1", default-features = false, features = ["serde"] }
regex = "1"
rust_tokenizers = "8"
serde = { version = "1", features = ["derive"] }
serde_json = "1"
tokio = { version = "1", features = ["macros", "rt-multi-thread"] }
