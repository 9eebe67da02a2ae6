[package]
name = "mcp_server_gdb"
version = "0.1.0"
edition = "2021"
publish = false

[dependencies]
anyhow = "=1.0.104"
mcp-core = "=0.1.50"
mcp-core-macros = "=0.1.30"
nix = { version = "=0.31.3", features = ["signal"] }
schemars = "=0.8.22"
serde = { version = "=1.0.229", features = ["derive"] }
serde_json = "=1.0.154"
tokio = { version = "=1.54.1", features = ["process", "io-util", "sync", "rt", "macros"] }
tracing = "=0.1.44"
uuid = { version = "=1.29.0", features = ["v4"] }
