[package]
name = "tokio-channels-console"
version = "0.1.0"
edition = "2021"
publish = false

[dependencies]
prettytable-rs = { version = "0.10", default-features = false }
serde = { version = "1", features = ["derive"] }
serde_json = "1"
crossbeam-channel = "0.5"
tiny_http = "0.12"
tokio = { version = "1", features = ["sync", "rt", "rt-multi-thread", "macros", "time"] }
clap = { version = "4", features = ["derive"] }
eyre = "0.6"
ratatui = "*"
ureq = "2"
