[package]
name = "toy-lsp"
version = "0.1.0"
edition = "2021"
publish = false

[dependencies]
memchr = "2"
log = "0.4"
simplelog = "0.12"
tokio = { version = "1", features = ["io-std", "io-util", "macros", "rt-multi-thread"] }
tokio-stream = "0.1"
tokio-util = { version = "0.7", features = ["codec"] }
