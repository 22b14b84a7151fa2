[package]
name = "flock"
version = "0.1.0"
edition = "2021"
publish = false

[dependencies]
aes-gcm = "0.10"
uuid = { version = "1", features = ["v4"] }
scraper = "*"
anyhow = "1"
async-trait = "0.1"
axum = { version = "0.7", features = ["ws"] }
futures = "0.3"
if-addrs = "*"
mdns-sd = "*"
reqwest = { version = "0.12", default-features = false, features = ["multipart", "cookies"] }
serde = { version = "1", features = ["derive"] }
serde_json = "1"
tokio = { version = "1", features = ["macros", "rt-multi-thread", "net", "time", "process", "sync", "io-util"] }
tokio-stream = "0.1"
toml = "0.8"
tracing = "0.1"
