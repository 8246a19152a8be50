[package]
name = "zero_agent"
version = "0.1.0"
edition = "2021"
publish = false

[dependencies]
serde_json = "1"
jsonschema = { version = "*", default-features = false }
serde = { version = "1", features = ["derive"] }
serde_yaml = "0.9"
tokio = { version = "1", features = ["full"] }
reqwest = { version = "0.12", default-features = false, features = ["json", "stream", "rustls-tls"] }
futures = "0.3"
eventsource-stream = "0.2"
async-trait = "0.1"
anyhow = "1"
uuid = { version = "1", features = ["v4"] }
