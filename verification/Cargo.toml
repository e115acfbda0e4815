[package]
name = "muster"
version = "0.1.0"
edition = "2021"
publish = false

[dependencies]
dirs = "*"
which = "*"
serde = { version = "1", features = ["derive"] }
serde_json = "1"
toml = "*"
tempfile = "3"
thiserror = "*"
clap = { version = "4", features = ["derive", "env"] }
tokio = { version = "1", features = ["process", "io-util", "sync", "rt", "rt-multi-thread", "macros", "time"] }
tracing-subscriber = { version = "0.3", features = ["env-filter"] }
