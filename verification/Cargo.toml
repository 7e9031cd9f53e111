[package]
name = "web_distributor"
version = "0.1.0"
edition = "2021"
publish = false

[dependencies]
bcrypt = "*"
clap = { version = "*", features = ["derive"] }
rpassword = "*"
serde = { version = "*", features = ["derive"] }
toml = "*"
