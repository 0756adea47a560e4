[package]
name = "email-sec"
version = "0.3.0"
edition = "2021"
publish = false

[dependencies]
askama = "0.12"
chrono = "0.4"
clap = { version = "4", features = ["derive"] }
console = "0.15"
futures = "0.3"
hickory-resolver = "0.24"
indicatif = "0.17"
mailparse = "0.15"
serde = { version = "1", features = ["derive"] }
serde_json = "1"
thiserror = "1"
tokio = { version = "1", features = ["full"] }
