[package]
name = "asimplevectors"
version = "0.1.0"
edition = "2021"
publish = false

[dependencies]
tide = "*"
async-std = "*"
serde = { version = "*", features = ["derive"] }
serde_json = "*"
chrono = "*"
clap = "*"
dotenv = "*"
