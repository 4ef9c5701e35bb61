[package]
name = "petit_filou"
version = "0.1.0"
edition = "2021"
publish = false

[dependencies]
serde_json = "*"
reqwest = { version = "*", default-features = false }
clap = { version = "*", features = ["derive"] }
clap_complete = "*"
tokio = { version = "*", features = ["rt-multi-thread", "macros"] }
futures-util = "*"
env_logger = { version = "*", default-features = false }
