[package]
name = "entrust"
version = "0.1.0"
edition = "2021"
publish = false

[dependencies]
anyhow = "1"
async-trait = "0.1"
base64 = "0.13"
bson = { version = "2", features = ["chrono-0_4"] }
chrono = "0.4"
futures = "0.3"
futures-util = "0.3"
heck = "0.3"
mongodb = "2"
serde = { version = "1", features = ["derive"] }
tokio = { version = "1", features = ["sync"] }
tracing = "0.1"
