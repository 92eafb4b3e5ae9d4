[package]
name = "little_snitch_mcp"
version = "0.1.0"
edition = "2021"
publish = false

[dependencies]
hex = "=0.4.3"
ipnet = "=2.12.2"
jsonschema = { version = "=0.60.2", default-features = false }
serde = { version = "=1.0.229", features = ["derive"] }
serde_json = { version = "=1.0.154", features = ["float_roundtrip"] }
sha2 = "=0.10.9"
similar = "=2.7.0"
tokio = { version = "=1.54.1", features = ["rt", "time", "process", "io-util", "macros"] }
