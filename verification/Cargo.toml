[package]
name = "hrdr"
version = "0.1.0"
edition = "2021"
publish = false

[dependencies]
anyhow = "1"
chrono = "0.4"
hjkl-clipboard = "*"
hjkl-xdg = "*"
serde = { version = "1", features = ["derive"] }
serde_json = "1"
tokio = { version = "1", features = ["process", "rt", "sync", "time"] }
toml = "*"

[dev-dependencies]
tempfile = "3"
