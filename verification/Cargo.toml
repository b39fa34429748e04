[package]
name = "tencoin"
version = "0.1.0"
edition = "2021"
publish = false

[dependencies]
chrono = { version = "=0.4.45", features = ["serde"] }
hex = "=0.4.3"
rand = "=0.8.8"
ripemd = "=0.1.3"
secp256k1 = { version = "=0.28.2", features = ["rand"] }
serde = { version = "=1.0.229", features = ["derive"] }
serde_json = "=1.0.154"
sha2 = "=0.10.9"
tokio = { version = "=1.54.1", features = ["full"] }
uuid = { version = "=1.29.1", features = ["v4"] }
warp = "=0.3.7"
