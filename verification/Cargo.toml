[package]
name = "resoxide_json"
version = "0.1.0"
edition = "2021"
publish = false

[dependencies]
serde = "1"
serde_json = "1"
rust_decimal = { version = "1", features = ["serde"] }
stringcase = "*"
