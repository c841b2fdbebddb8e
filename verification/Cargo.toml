[package]
name = "vibe_extract"
version = "0.2.0"
edition = "2021"
publish = false

[dependencies]
anyhow = "1"
axum = "0.8"
base64 = "0.22"
core-foundation = "0.10"
core-graphics = "0.24"
env_logger = "0.11"
futures-util = "0.3"
goblin = "0.9"
image = { version = "0.25", default-features = false, features = ["png"] }
libc = "0.2"
log = "0.4"
reqwest = { version = "0.12", default-features = false, features = ["json"] }
rmcp = { version = "1", features = ["server", "macros", "transport-streamable-http-server"] }
serde = { version = "1", features = ["derive"] }
serde_json = "1"
thiserror = "2"
tokio = { version = "1", features = ["full"] }
tokio-tungstenite = "0.24"
tokio-util = "0.7"
