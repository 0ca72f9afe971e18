[package]
name = "mlinference"
version = "0.1.0"
edition = "2021"
publish = false

[dependencies]
wasmbus-rpc = { version = "=0.9.3", default-features = false }
minicbor = { version = "=0.17.1", features = ["std"] }
serde = { version = "1", features = ["derive"] }
serde_json = "1"
serde_bytes = "0.11"
async-trait = "0.1"
thiserror = "1"
anyhow = "1"
log = "0.4"
tokio = { version = "1", default-features = false, features = ["sync"] }
reqwest = { version = "0.11", default-features = false }
