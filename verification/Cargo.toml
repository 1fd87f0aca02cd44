[package]
name = "sit"
version = "0.1.0"
edition = "2021"
publish = false

[dependencies]
clap = { version = "4", features = ["derive"] }
colored = "*"
crossterm = "*"
dirs = "*"
inquire = "*"
serde = { version = "1", features = ["derive"] }
thiserror = "*"
toml = "*"
