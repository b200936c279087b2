[package]
name = "wechatbot"
version = "0.1.0"
edition = "2021"
publish = false

[dependencies]
dirs-next = "2"
reqwest = { version = "0.12", default-features = false, features = ["json"] }
serde = { version = "1", features = ["derive"] }
serde_json = "1"
thiserror = "2"
tokio = { version = "1", features = ["sync", "time", "fs", "rt", "macros"] }
tracing = "0.1"
