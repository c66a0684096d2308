[package]
name = "unifi_mcp"
version = "0.1.0"
edition = "2021"
publish = false

[dependencies]
http = "1"
rmcp = { version = "*", features = ["server"] }
schemars = "1"
serde = { version = "1", features = ["derive"] }
serde_json = { version = "1", features = ["raw_value"] }
tokio = { version = "1", features = ["sync", "macros", "rt"] }
zeroize = "1"

[dev-dependencies]
jsonschema = { version = "*", default-features = false }
