[package]
name = "comic_ingest"
version = "0.1.0"
edition = "2021"
publish = false

[dependencies]
http = "1"
serde_json = "1"
zip = { version = "*", default-features = false, features = ["deflate"] }
