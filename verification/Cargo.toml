[package]
name = "rivet"
version = "0.1.0"
edition = "2021"
publish = false

[dependencies]
clap = { version = "4", features = ["derive"] }
comfy-table = "7"
crossterm = "0.28"
dotenvy = "0.15"
owo-colors = "4"
ratatui = "0.29"
reqwest = { version = "0.12", default-features = false, features = ["blocking", "rustls-tls"] }
serde = { version = "1", features = ["derive"] }
serde_json = "1"
termtree = "0.5"
toml = "0.8"

[dev-dependencies]
regex = "1"
