[package]
name = "rust_net"
version = "0.1.0"
edition = "2021"
publish = false

[dependencies]
slab = "*"
anyhow = "*"
futures-util = "*"
serde = { version = "*", features = ["derive"] }
serde_json = "*"
tokio = { version = "*", features = ["rt-multi-thread", "sync", "net", "macros", "time", "io-util"] }
tokio-tungstenite = "*"
reqwest = { version = "*", features = ["rustls-tls", "brotli", "cookies"] }
