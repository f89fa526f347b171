[package]
name = "modify"
version = "0.1.0"
edition = "2021"
publish = false

[dependencies]
async-trait = "0.1"
chrono = "0.4"
indexmap = "2"
reqwest = "0.11"
serde_json = "1"
tokio = { version = "1", features = ["fs", "io-util", "rt-multi-thread"] }
zip = { version = "0.6", default-features = false }
