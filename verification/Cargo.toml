[package]
name = "updater"
version = "0.1.0"
edition = "2021"
publish = false

[dependencies]
md5 = "*"
flate2 = "*"
walkdir = "*"
reqwest = { version = "*", default-features = false }
tokio = { version = "*", default-features = false, features = ["rt", "macros"] }
serde = { version = "*", features = ["derive"] }
serde_json = "*"
