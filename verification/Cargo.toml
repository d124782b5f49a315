[package]
name = "text_to_cypher"
version = "0.1.0"
edition = "2021"
publish = false

[dependencies]
actix-web = "=4.15.0"
actix-web-lab = "=0.29.0"
dotenvy = "=0.15.7"
falkordb = { version = "=0.10.4", features = ["tokio"] }
futures-util = "=0.3.34"
genai = "=0.6.5"
rust-mcp-sdk = "=2.0.0"
serde = { version = "=1.0.229", features = ["derive"] }
serde_json = "=1.0.151"
tokio = { version = "=1.53.2", features = ["full"] }
tokio-stream = "=0.1.19"
