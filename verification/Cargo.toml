[package]
name = "vllm_router_rs"
version = "0.1.0"
edition = "2021"
publish = false

[dependencies]
dashmap = "*"
rand = "*"
serde = { version = "*", features = ["derive"] }
thiserror = "*"
tokio = { version = "*", features = ["rt", "time"] }
tracing = "*"

[dev-dependencies]
http = "*"
