[package]
name = "subgraph_tier"
version = "0.1.0"
edition = "2021"
publish = false

[dependencies]
cached = "=0.55.1"
http = "=1.5.0"
serde = { version = "=1.0.229", features = ["derive"] }
serde_json = "=1.0.151"
reqwest = { version = "=0.13.5", default-features = false, features = ["blocking", "json"] }
