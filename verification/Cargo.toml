[package]
name = "herdr"
version = "0.1.0"
edition = "2021"
publish = false

[dependencies]
base64 = "=0.22.1"
bincode = { version = "=2.0.1", features = ["serde"] }
bytes = "=1.12.1"
crossterm = "=0.29.0"
ratatui = { version = "=0.30.2", default-features = false, features = ["underline-color"] }
schemars = "=1.2.3"
serde = { version = "=1.0.229", features = ["derive"] }
serde_json = "=1.0.154"
sha2 = "=0.10.9"
toml = "=0.9.12"
tracing = "=0.1.44"
