[package]
name = "reasonable"
version = "0.1.0"
edition = "2021"
publish = false

[dependencies]
base64 = "=0.13.1"
base65536 = "=1.0.1"
bincode = "=1.3.3"
chrono = { version = "=0.4.45", features = ["serde"] }
crossbeam-channel = "=0.5.17"
dotenv = "=0.15.0"
serde = { version = "=1.0.229", features = ["derive"] }
sodiumoxide = "=0.2.7"
twox-hash = "=1.6.3"
uuid = { version = "=1.27.0", features = ["v4"] }
