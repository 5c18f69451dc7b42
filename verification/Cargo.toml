[package]
name = "rust_llm_inference_gateway"
version = "0.1.0"
edition = "2021"
publish = false

[dependencies]
async-stream = "0.3"
async-trait = "0.1"
axum = "0.7"
futures-util = "0.3"
prometheus = "0.13"
redis = { version = "0.27", features = ["tokio-comp"] }
reqwest = { version = "0.12", default-features = false, features = ["json", "stream"] }
serde = { version = "1", features = ["derive"] }
serde_json = "1"
sha2 = "0.10"
thiserror = "1"
tokio = { version = "1", features = ["full"] }
tokio-stream = "0.1"
tracing = "0.1"
tracing-subscriber = { version = "0.3", features = ["env-filter"] }
uuid = { version = "1", features = ["v4"] }
