[package]
name = "dem_core"
version = "0.1.0"
edition = "2021"
publish = false

[dependencies]
dashmap = "=5.5.3"
lru = { version = "=0.7.8", default-features = false }
fxhash = "=0.2.1"
serde_json = "=1.0.151"
base64 = "=0.13.1"
tokio = { version = "=1.53.2", features = ["rt-multi-thread", "macros", "time", "sync"] }
tokio-tungstenite = "=0.30.0"
futures-util = "=0.3.34"
reqwest = { version = "=0.11.27", default-features = false }
rand = "=0.8.8"
