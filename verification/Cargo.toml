[package]
name = "chatdesk"
version = "0.1.0"
edition = "2021"
publish = false

[dependencies]
chrono = "=0.4.45"
futures-util = "=0.3.34"
reqwest = { version = "=0.12.28", default-features = false, features = ["json", "stream"] }
serde = { version = "=1.0.229", features = ["derive"] }
serde_json = "=1.0.151"
tokio = { version = "=1.53.2", features = ["macros", "rt", "rt-multi-thread"] }
uuid = { version = "=1.27.0", features = ["v4"] }
