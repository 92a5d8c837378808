[package]
name = "assistant_slash_command"
version = "0.1.0"
edition = "2021"
publish = false

[dependencies]
serde_json = "1"
serde = { version = "1", features = ["derive"] }
futures = "0.3"
anyhow = "1"
