[package]
name = "zond_daemon"
version = "0.1.0"
edition = "2021"
publish = false

[dependencies]
zond-engine = { version = "=0.19.0", features = ["export-all", "import-request", "journal-format"] }
serde = { version = "=1.0.229", features = ["derive"] }
serde_json = "=1.0.154"
tokio = { version = "=1.54.1", features = ["full"] }
clap = { version = "=4.6.7", features = ["derive"] }
