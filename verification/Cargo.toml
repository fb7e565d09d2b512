[package]
name = "apcdeck"
version = "0.1.0"
edition = "2021"
publish = false

[dependencies]
anyhow = "*"
midir = "*"
obws = "*"
serde = { version = "*", features = ["derive"] }
serde_yaml = "*"
tokio = { version = "*", features = ["macros", "rt-multi-thread", "sync", "time"] }
