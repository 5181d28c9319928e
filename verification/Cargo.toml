[package]
name = "docgen"
version = "0.1.0"
edition = "2021"
publish = false

[dependencies]
chrono = "0.4"
toml = "0.8"
serde = { version = "1", features = ["derive"] }
serde_json = "1"
thiserror = "1"
clap = { version = "4", features = ["derive"] }
typst = "0.11"
typst-pdf = "0.11"
comemo = "0.4"
crossterm = "0.27"
ratatui = "0.26"
reqwest = { version = "0.11", default-features = false, features = ["blocking", "rustls-tls"] }
zip = { version = "0.6", default-features = false, features = ["deflate"] }
