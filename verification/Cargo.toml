[package]
name = "rtmp"
version = "0.1.0"
edition = "2021"
publish = false

[dependencies]
rand = "*"
hmac = "*"
sha2 = "*"
url = "*"
tokio = { version = "*", features = ["rt", "rt-multi-thread", "net", "io-util", "sync", "time", "macros"] }
