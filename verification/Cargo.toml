[package]
name = "simple_chat"
version = "0.1.0"
edition = "2021"
publish = false

[dependencies]
tokio = { version = "1", features = ["sync", "macros", "rt-multi-thread", "net", "time"] }
serde = { version = "1", features = ["derive"] }
serde_json = "1"
rocket = "0.5"
rocket_ws = "0.1"
reqwest = { version = "0.12", default-features = false }
clap = "4"
log = "0.4"
simple_logger = "5"
futures = "0.3"
tokio-tungstenite = "0.24"
tokio-util = { version = "0.7", features = ["codec"] }
