[package]
name = "hiqlite_stream"
version = "0.1.0"
edition = "2021"
publish = false

[dependencies]
axum = "0.7"
bincode = "1"
fastwebsockets = { version = "0.8", features = ["upgrade", "unstable-split", "with_axum"] }
flume = "0.11"
serde = { version = "1", features = ["derive"] }
tokio = { version = "1", features = ["macros", "rt-multi-thread", "net", "io-util", "sync", "time"] }
tracing = "0.1"
