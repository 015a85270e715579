[package]
name = "falcon_net"
version = "0.1.0"
edition = "2021"
publish = false

[dependencies]
tokio = { version = "*", features = ["sync", "net", "io-util", "rt-multi-thread", "macros"] }
uuid = "*"
