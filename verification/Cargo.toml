[package]
name = "activity_feed"
version = "0.1.0"
edition = "2021"
publish = false

[dependencies]
chrono = "*"
chrono-humanize = "*"
linkify = "*"
regex = "*"
serde = { version = "*", features = ["derive"] }
serde_json = "*"
dotenv = "*"
reqwest = { version = "*", default-features = false, features = ["blocking"] }
oauth-client = "*"
