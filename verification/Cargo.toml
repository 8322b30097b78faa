[package]
name = "patch_engine"
version = "0.1.0"
edition = "2021"
publish = false

[dependencies]
crc = "*"
flips = "*"
clap = { version = "*", features = ["derive"] }
reqwest = { version = "*", default-features = false, features = ["blocking", "json", "rustls-tls"] }
serde = { version = "*", features = ["derive"] }
walkdir = "*"
zip-extract = "*"
