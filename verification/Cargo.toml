[package]
name = "smduperemover"
version = "0.1.0"
edition = "2021"
publish = false

[dependencies]
rusqlite = { version = "=0.41.1", features = ["fallible_uint"] }
terminal_size = "=0.4.4"
