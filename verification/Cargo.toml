[package]
name = "ht_core"
version = "0.3.0"
edition = "2021"
publish = false

[dependencies]
anyhow = "=1.0.104"
axum = { version = "=0.7.9", features = ["ws"] }
clap = { version = "=4.6.7", features = ["derive"] }
futures-util = "=0.3.34"
mime_guess = "=2.0.5"
nix = { version = "=0.28.0", features = ["fs", "process", "signal", "term"] }
rust-embed = "=8.13.0"
serde = { version = "=1.0.229", features = ["derive"] }
serde_json = "=1.0.154"
tokio = { version = "=1.54.1", features = ["full"] }
tokio-stream = { version = "=0.1.19", features = ["sync"] }
windows = { version = "=0.58.0", features = ["Win32_Foundation"] }
