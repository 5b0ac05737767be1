[package]
name = "rust_geck"
version = "0.1.0"
edition = "2021"
publish = false

[dependencies]
base64 = "*"
serde = { version = "*", features = ["derive"] }
serde_json = "*"
tokio = { version = "*", default-features = false, features = ["rt-multi-thread", "process", "io-util", "sync", "net", "time"] }
reqwest = { version = "*", default-features = false }
tokio-tungstenite = "*"
futures-util = "*"
