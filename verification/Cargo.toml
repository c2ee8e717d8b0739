[package]
name = "smartfan"
version = "0.1.0"
edition = "2021"
publish = false

[dependencies]
regex = "1"
chrono = "0.4"
tokio = { version = "1", features = ["rt-multi-thread", "macros", "sync", "time"] }
serde = { version = "1", features = ["derive"] }
serde_yaml = "0.9"
log = "0.4"
simple_logger = "*"
argh = "*"
derive_more = { version = "*", features = ["display"] }
ratatui = "0.29"
