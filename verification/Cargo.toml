[package]
name = "deriddl_rs"
version = "0.1.0"
edition = "2021"
publish = false

[dependencies]
regex = "*"
odbc-api = "*"
chrono = "*"
serde = { version = "*", features = ["derive"] }
toml = "*"
