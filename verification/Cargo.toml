[package]
name = "hls_stream"
version = "0.1.0"
edition = "2021"
publish = false

[dependencies]
aes = "0.8"
async-trait = "0.1"
bytes = "1"
cbc = { version = "0.1", features = ["std"] }
hex = "0.4"
m3u8-rs = "6"
reqwest = { version = "0.12", default-features = false, features = ["rustls-tls"] }
reqwest-middleware = "0.4"
reqwest-retry = "0.7"
tokio = { version = "1", features = ["sync", "time"] }
url = "2"
