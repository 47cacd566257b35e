[package]
name = "recurl"
version = "0.1.0"
edition = "2021"
publish = false

[dependencies]
url = "2"
serde = { version = "1", features = ["derive"] }
serde_json = "1"
tokio = { version = "1", features = ["full"] }
futures = "0.3"
dirs = "5"
which = "6"
mimalloc = "0.1"
chromiumoxide = "0.8"
chromiumoxide_fetcher = "0.8"
