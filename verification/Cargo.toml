[package]
name = "namekit"
version = "0.1.0"
edition = "2021"
publish = false

[dependencies]
serde_json = "1"
serde = { version = "1", features = ["derive"] }
reqwest = { version = "0.12", default-features = false, features = ["stream"] }
tokio = { version = "1", features = ["macros", "rt-multi-thread", "sync"] }
tokio-stream = "0.1"
futures-core = "0.3"
futures-util = "0.3"
clap = { version = "4", features = ["derive"] }
crossterm = "0.28"
dirs = "5"
