[package]
name = "tcp_web"
version = "0.1.0"
edition = "2021"

[dependencies]
infer = "*"
