[package]
name = "rust-sdk"
version = "0.1.0"
edition = "2021"
publish = false

[dependencies]
ammonia = "=4.2.4"
async-trait = "=0.1.92"
dashmap = "5.5"
chrono = { version = "=0.4.45", features = ["serde"] }
dotenv = "=0.15.0"
hex = "=0.4.3"
hmac-sha256 = "=1.1.15"
lru = "=0.12.5"
parking_lot = "=0.12.5"
rand = "=0.8.8"
regex = "=1.13.1"
reqwest = { version = "=0.11.27", default-features = false, features = ["json"] }
serde = { version = "=1.0.229", features = ["derive"] }
serde_json = "=1.0.154"
thiserror = "=1.0.69"
tokio = { version = "=1.54.1", features = ["rt-multi-thread", "macros", "time"] }
tracing = "=0.1.44"
uuid = { version = "=1.29.1", features = ["v4", "serde"] }
