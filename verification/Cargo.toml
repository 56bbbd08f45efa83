[package]
name = "tordln"
version = "0.1.0"
edition = "2021"
publish = false

[dependencies]
anyhow = "=1.0.104"
arboard = "=3.7.0"
crossterm = "=0.28.1"
librqbit = { version = "=8.1.1", default-features = false, features = ["rust-tls"] }
notify = "=6.1.1"
ratatui = "=0.29.0"
serde = { version = "=1.0.229", features = ["derive"] }
tokio = { version = "=1.54.1", features = ["full"] }
toml = "=0.8.23"
