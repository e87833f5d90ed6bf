[package]
name = "xlauchez"
version = "0.1.0"
edition = "2021"
publish = false

[dependencies]
dirs = "5"
uuid = { version = "1", features = ["v4"] }
serde = { version = "1", features = ["derive"] }
serde_json = "1"
reqwest = { version = "0.12", default-features = false, features = ["json", "rustls-tls"] }
tokio = { version = "1", features = ["fs", "process", "io-util", "rt-multi-thread"] }
opener = "0.7"
