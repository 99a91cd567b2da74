[package]
name = "recli"
version = "0.1.0"
edition = "2021"
publish = false

[dependencies]
chrono = "0.4"
clap = { version = "4", features = ["derive"] }
crossterm = "0.27"
hex = "0.4"
hostname = "0.3"
libc = "0.2"
portable-pty = "0.8"
rand = "0.8"
regex = "1"
serde = { version = "1", features = ["derive"] }
serde_json = "1"
sha2 = "0.10"
tokio = { version = "1", features = ["rt-multi-thread", "macros", "sync", "signal", "time"] }
toml = "0.8"
tracing-subscriber = { version = "0.3", features = ["env-filter"] }
