[package]
name = "ef_core"
version = "0.1.0"
edition = "2021"
publish = false

[dependencies]
aes = "0.8"
cbc = { version = "0.1", features = ["alloc"] }
md-5 = "0.10"
num-bigint = "0.4"
num-integer = "0.1"
num-traits = "0.2"
rand = "0.8"
serde = { version = "1", features = ["derive"] }
serde_json = "1"
base64 = "0.22"
hex = "0.4"
anyhow = "1"
thiserror = "1"
uuid = "1"
futures = "0.3"
tokio = { version = "1", features = ["rt-multi-thread", "macros", "sync", "time"] }
tokio-util = "0.7"
btleplug = "0.11"
reqwest = { version = "0.12", default-features = false, features = ["json", "rustls-tls"] }
