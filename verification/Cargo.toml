[package]
name = "quick_send"
version = "0.1.0"
edition = "2021"
publish = false

[dependencies]
anyhow = "1"
dirs-next = "2"
futures-lite = "2"
log = "0.4"
serde = { version = "1", features = ["derive"] }
