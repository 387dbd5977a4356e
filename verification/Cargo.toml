[package]
name = "claude_team"
version = "0.1.0"
edition = "2021"
publish = false

[dependencies]
anyhow = "=1.0.104"
chrono = "=0.4.45"
serde = { version = "=1.0.229", features = ["derive"] }
serde_json = "=1.0.154"
tempfile = "=3.27.0"
tokio = { version = "=1.54.1", features = ["rt", "rt-multi-thread", "time", "macros"] }
tracing = "=0.1.44"
ratatui = { version = "=0.29.0", default-features = false }
unicode-width = "=0.2.0"

[dev-dependencies]
