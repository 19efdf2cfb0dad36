[package]
name = "mini_utils"
version = "0.1.0"
edition = "2021"
publish = false

[dependencies]
bytes = "1"
colored = "2"
reqwest = { version = "0.12", features = ["blocking"] }
