[package]
name = "newral_core"
version = "0.1.0"
edition = "2021"
publish = false

[dependencies]
sha2 = "*"
uuid = { version = "*", features = ["v5"] }
num-bigint = "*"
num-traits = "*"
