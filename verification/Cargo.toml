[package]
name = "ai_agent"
version = "0.1.0"
edition = "2021"
publish = false

[dependencies]
chrono = "=0.4.45"
anyhow = "=1.0.104"
serde = { version = "=1.0.229", features = ["derive"] }
serde_json = "=1.0.154"
tokio = { version = "=1.54.1", features = ["full"] }
axum = "=0.8.9"
reqwest = { version = "=0.12.28", default-features = false, features = ["json"] }
rmcp = { version = "=3.8.0", features = ["client", "server", "macros", "transport-io", "transport-child-process", "transport-streamable-http-client-reqwest"] }
async-openai = { version = "=0.43.0", features = ["chat-completion"] }
schemars = "=1.2.3"
tracing = "=0.1.44"
tracing-subscriber = "=0.3.23"
dotenv = "=0.15.0"
backon = "=1.6.0"
