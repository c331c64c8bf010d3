[package]
name = "listing_importer"
version = "0.1.0"
edition = "2021"
publish = false

[dependencies]
actix-web = "4"
dotenvy = "0.15"
futures-util = "0.3"
num-format = "0.4"
once_cell = "1"
regex = "1"
reqwest = { version = "0.12", features = ["stream"] }
serde = { version = "1", features = ["derive"] }
serde_json = "1"
thiserror = "2"
tokio = { version = "1", features = ["full"] }
tokio-stream = "0.1"
