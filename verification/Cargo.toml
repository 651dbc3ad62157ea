[package]
name = "minos"
version = "0.1.0"
edition = "2021"
publish = false

[dependencies]
non-empty-string = "*"
chrono = "*"
jsonwebtoken = "*"
serde = { version = "1", features = ["derive"] }
serde_json = "1"
regex = "1"
versions = "*"
