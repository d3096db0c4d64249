[package]
name = "semantic-scholar-mcp"
version = "0.1.0"
edition = "2021"
publish = false

[dependencies]
anyhow = "1"
async-trait = "0.1"
chrono = { version = "0.4", features = ["serde"] }
directories = "6"
futures = "0.3"
futures-timer = "3"
heed = { version = "0.21", features = ["serde-json"] }
log = "0.4"
serde = { version = "1", features = ["derive"] }
serde_json = "1"
tokio = { version = "1", features = ["io-std", "io-util", "macros", "rt-multi-thread"] }
urlencoding = "2"
