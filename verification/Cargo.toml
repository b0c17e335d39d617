[package]
name = "cluaiz_engines"
version = "0.1.0"
edition = "2021"
publish = false

[dependencies]
serde = { version = "=1.0.229", features = ["derive"] }
serde_json = "=1.0.154"
serde_yaml = "=0.9.34"
tokio = { version = "=1.54.1", features = ["rt-multi-thread", "macros", "process", "io-util", "time", "sync", "fs"] }
anyhow = "=1.0.104"
bincode = "=1.3.3"
chrono = "=0.4.45"
once_cell = "=1.21.4"
reqwest = { version = "=0.12.28", default-features = false, features = ["json"] }
zip = { version = "=9.2.2", default-features = false, features = ["deflate-flate2-zlib-rs"] }
