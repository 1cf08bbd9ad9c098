[package]
name = "blink-md"
version = "0.3.1"
edition = "2021"
publish = false

[dependencies]
pulldown-cmark = { version = "0.12.2", default-features = false }
serde_yaml = "0.9"
serde_json = "1"
serde = { version = "1", features = ["derive"] }
csv = "1"
unicode-width = "0.2"
hex = "0.4"
hmac = "0.12"
sha2 = "0.10"
subtle = "2"
chrono = "0.4"
similar = "2"
thiserror = "2"
anyhow = "1"
tokio = { version = "1", features = ["full"] }
reqwest = { version = "0.12", default-features = false, features = ["json", "rustls-tls"] }
governor = "0.8"
clap = { version = "4", features = ["derive"] }
notify = "7"
ratatui = "0.29"
crossterm = "0.28"
syntect = { version = "5", default-features = false, features = ["default-fancy"] }
async-trait = "0.1"
tracing-subscriber = { version = "0.3", features = ["env-filter"] }
pmcp = "2.23"
