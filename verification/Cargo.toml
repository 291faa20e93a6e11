[package]
name = "apple-mail-mcp"
version = "0.2.0"
edition = "2021"
publish = false

[dependencies]
chrono = "*"
serde = { version = "*", features = ["derive"] }
serde_json = "*"
schemars = "*"
thiserror = "*"
async-trait = "*"
tokio = { version = "*", features = ["full"] }
rmcp = { version = "*", features = ["server", "macros", "transport-io"] }
