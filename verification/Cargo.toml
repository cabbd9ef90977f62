[package]
name = "fisherman"
version = "0.1.0"
edition = "2021"
publish = false

[dependencies]
regex = "1"
serde = { version = "1", features = ["derive"] }
toml = "*"
colored = "*"
inquire = { version = "*", features = ["editor"] }
spinners = "4"
