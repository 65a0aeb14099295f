[package]
name = "promptforge_workshop"
version = "0.1.0"
edition = "2021"
publish = false

[dependencies]
arc-swap = "1"
async-trait = "0.1"
futures-util = { version = "0.3", default-features = false, features = ["std", "sink"] }
rand = "0.9"
reqwest = { version = "0.12", default-features = false, features = ["json", "stream"] }
serde = { version = "1", features = ["derive"] }
serde_json = "1"
thiserror = "2"
tokio = { version = "1", features = ["rt", "rt-multi-thread", "macros", "sync", "time", "fs", "net", "io-util"] }
tokio-tungstenite = { version = "0.26", default-features = false, features = ["connect"] }
tokio-util = "0.7"
tracing = "0.1"
url = "2"
