[package]
name = "validator"
version = "0.1.0"
edition = "2021"
publish = false

[dependencies]
chrono = "0.4"
clap = "4"
env_logger = "0.11"
log = "0.4"
maxminddb = "0.24"
postgrest = "1"
rand = "0.9"
reqwest = { version = "0.12", features = ["socks"] }
serde = { version = "1", features = ["derive"] }
serde_json = "1"
tokio = { version = "1", features = ["macros", "rt-multi-thread", "time"] }
tungstenite = "*"
