[package]
name = "codex_fleet"
version = "0.1.0"
edition = "2021"
publish = false

[dependencies]
anyhow = "1"
clap = { version = "4", features = ["derive"] }
eventsource-stream = "0.2"
futures = "0.3"
http = "1"
schemars = "0.8"
serde = { version = "1", features = ["derive"] }
serde_json = "1"
tokio = { version = "1", features = ["fs", "macros", "rt-multi-thread", "sync", "time"] }
toml_edit = "0.24"
tracing = "0.1"

[dev-dependencies]
toml = "0.9"
