[package]
name = "kaomoji-widget"
version = "0.1.0"
edition = "2021"
publish = false

[dependencies]
base64 = "0.22"
serde = { version = "1", features = ["derive"] }
serde_json = "1"
interprocess = "2"
nix = { version = "0.30", features = ["user"] }
rmcp = { version = "*", features = ["server", "transport-io", "macros"] }
tokio = { version = "1", features = ["rt-multi-thread", "macros", "time", "sync", "io-std"] }
anyhow = "1"
tracing = "0.1"
tracing-subscriber = "0.3"
