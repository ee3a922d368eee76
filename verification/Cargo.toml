[package]
name = "galleonfs"
version = "0.1.0"
edition = "2021"
publish = false

[dependencies]
crc32fast = "=1.5.4"
uuid = { version = "=1.29.0", features = ["v4"] }
rand = "=0.8.8"
chrono = "=0.4.45"
dirs = "5"
