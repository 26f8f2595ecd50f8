[package]
name = "codex_flows"
version = "0.1.0"
edition = "2021"
publish = false

[dependencies]
reqwest = { version = "=0.12.28", default-features = false, features = ["json"] }
serde = { version = "=1.0.229", features = ["derive"] }
serde_json = "=1.0.154"
tokio = { version = "=1.54.1", features = ["macros", "rt", "sync", "time"] }
tracing = { version = "=0.1.44", default-features = false, features = ["std"] }
uuid = { version = "=1.29.0", features = ["v4"] }
