[package]
name = "connpool"
version = "0.1.0"
edition = "2021"
publish = false

[dependencies]
anyhow = "*"
dotenv = "*"
serde = { version = "*", features = ["derive"] }
tokio = { version = "*", features = ["rt-multi-thread", "net", "io-util", "sync", "macros"] }
tracing = "*"
tracing-subscriber = "*"
