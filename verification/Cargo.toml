[package]
name = "explorer"
version = "0.1.0"
edition = "2021"
publish = false

[dependencies]
git2 = { version = "*", default-features = false }
md5 = "*"
base64 = "*"
serde = { version = "*", features = ["derive"] }
serde_json = "*"
