[package]
name = "thumbcache"
version = "0.1.0"
edition = "2021"
publish = false

[dependencies]
sha2 = "*"
base64 = "*"
image = "*"
dirs = "*"
walkdir = "*"
serde = { version = "*", features = ["derive"] }
serde_json = "*"
