[package]
name = "mcp-credentials-vault"
version = "1.1.0"
edition = "2021"
publish = false

[dependencies]
uuid = { version = "1", features = ["v4"] }
chrono = { version = "0.4", features = ["serde"] }
serde = { version = "1", features = ["derive"] }
serde_json = "1"
base64 = "0.22"
thiserror = "2"
async-trait = "0.1"
tokio = { version = "1", features = ["sync", "macros", "rt-multi-thread"] }
reqwest = { version = "0.12", default-features = false, features = ["json", "rustls-tls"] }
aws-config = "1"
aws-sdk-secretsmanager = "1"
gcp_auth = "0.12"
rmcp = "*"
adk-mcp-sdk = "*"
rustls = "0.23"
tracing-subscriber = { version = "0.3", features = ["env-filter"] }
