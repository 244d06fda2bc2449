[package]
name = "mcpatch"
version = "0.1.0"
edition = "2021"
publish = false

[dependencies]
sha2 = "*"
base16ct = { version = "*", features = ["alloc"] }
axum = "*"
tokio = { version = "*", features = ["full"] }
tokio-util = { version = "*", features = ["io"] }
serde = { version = "*", features = ["derive"] }
serde_json = "*"
toml = "*"
async-trait = "*"
