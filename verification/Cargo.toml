[package]
name = "udp_chat"
version = "0.1.0"
edition = "2021"
publish = false

[dependencies]
crc64 = "*"
tokio = { version = "1", features = ["rt-multi-thread"] }
winconsole = "*"
