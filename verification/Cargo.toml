[package]
name = "browser_pool"
version = "0.1.0"
edition = "2021"
publish = false

[dependencies]
anyhow = "=1.0.104"
base64 = "=0.13.1"
deadpool = "*"
fantoccini = "=0.22.1"
handlebars = { version = "=4.5.0", features = ["dir_source"] }
rocket = { version = "=0.5.2", features = ["json"] }
rocket_prometheus = "=0.11.0"
serde = { version = "=1.0.229", features = ["derive"] }
serde_json = "=1.0.154"
tokio = { version = "=1.54.1", features = ["sync", "signal", "rt", "time"] }
tracing = "=0.1.44"
tracing-subscriber = "=0.3.23"
