[package]
name = "pheme"
version = "0.1.0"
edition = "2021"
publish = false

[dependencies]
urlencoding = "*"
ureq = { version = "*", default-features = false }
clap = { version = "*", features = ["derive"] }
colour = "*"
dotenv = "*"
dirs = "*"
serde = { version = "*", features = ["derive"] }
toml = "*"
