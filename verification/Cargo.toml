[package]
name = "mcp_agent"
version = "0.1.0"
edition = "2021"
publish = false

[dependencies]
serde_json = "=1.0.151"
langchain-rust = "=4.6.0"
rmcp = { version = "=3.5.1", features = ["client"] }
tokio = { version = "=1.53.2", features = ["sync", "rt", "macros", "rt-multi-thread"] }
tokio-stream = "=0.1.19"
async-trait = "=0.1.92"
async-stream = "=0.3.6"
futures-util = "=0.3.34"
chrono = "=0.4.45"
uuid = { version = "=1.27.0", features = ["v7"] }
tracing = "=0.1.44"
