[package]
name = "move_ir_to_bytecode"
version = "0.1.0"
edition = "2021"
publish = false

[dependencies]
anyhow = "1"
axum = "=0.6.20"
tokio = { version = "1", features = ["full"] }
reqwest = { version = "0.11", default-features = false }
