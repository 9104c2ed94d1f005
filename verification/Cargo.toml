[package]
name = "msixvc"
version = "0.1.0"
edition = "2021"
publish = false

[dependencies]
chrono = { version = "0.4", default-features = false, features = ["std"] }
tokio = { version = "1", features = ["fs", "io-util", "io-std", "net", "rt", "rt-multi-thread", "macros", "sync", "time"] }
tokio-util = { version = "0.7", features = ["io", "io-util"] }
flume = "0.11"
reqwest = { version = "0.12", default-features = false, features = ["stream"] }
futures-util = "0.3"
uuid = "1"
log = "0.4"
indicatif = "0.17"
thiserror = "2"
zerocopy = "0.8"
