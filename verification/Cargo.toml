[package]
name = "squash_zip"
version = "0.1.0"
edition = "2021"
publish = false

[dependencies]
aes = "*"
ahash = "*"
crc32fast = "*"
zopfli = "*"
futures = "*"
thiserror = "*"
tokio = { version = "*", features = ["fs", "io-util", "sync"] }
tokio-stream = "*"
tokio-util = { version = "*", features = ["io"] }
