[package]
name = "media_catalog"
version = "0.1.0"
edition = "2021"
publish = false

[dependencies]
base64 = "*"
blake3 = "*"
rusqlite = { version = "*", features = ["bundled"] }
walkdir = "*"
