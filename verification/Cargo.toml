[package]
name = "edna-server"
version = "0.1.0"
edition = "2021"
publish = false

[dependencies]
mysql = { version = "*", default-features = false, features = ["minimal"] }
serde_urlencoded = "0.7"
slog = "2"
slog-term = "2"
