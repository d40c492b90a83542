[package]
name = "multipartus_downloader"
version = "0.1.0"
edition = "2021"
publish = false

[dependencies]
aes = "0.8"
serde = { version = "1", features = ["derive"] }
serde_json = "1"
tokio = { version = "1", features = ["fs", "io-util", "macros", "process", "rt", "rt-multi-thread", "sync", "time"] }
tokio-util = "0.7"
reqwest = { version = "0.12", default-features = false }
