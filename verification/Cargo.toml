[package]
name = "mcp_stdio"
version = "0.1.0"
edition = "2021"
publish = false

[dependencies]
rmcp = { version = "0.8", features = ["client", "transport-child-process"] }
serde = { version = "1", features = ["derive"] }
serde_json = "1"
tokio = { version = "1", features = ["io-util", "macros", "process", "rt", "rt-multi-thread", "sync", "time"] }
futures-util = "0.3"
tracing = "0.1"
