[package]
name = "hook_engine"
version = "0.1.0"
edition = "2021"
publish = false

[dependencies]
anyhow = "1"
async-trait = "0.1"
base64 = "0.22"
chrono = "0.4"
dirs = "5"
jsonschema = { version = "0.17", default-features = false }
notify = "6"
regex = "1"
reqwest = { version = "0.11", default-features = false, features = ["json"] }
serde = { version = "1", features = ["derive"] }
serde_json = "1"
tokio = { version = "1", features = ["rt", "rt-multi-thread", "time", "process", "sync", "io-util", "macros", "fs"] }
toml = "0.8"
uuid = { version = "1", features = ["v4"] }
