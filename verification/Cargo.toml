[package]
name = "opencad"
version = "0.1.0"
edition = "2021"
publish = false

[dependencies]
sha2 = "0.10"
serde = { version = "1", features = ["derive"] }
serde_json = "1"
indexmap = "2"
base64 = "0.22"
zip = { version = "2", default-features = false, features = ["deflate"] }
thiserror = "2"
