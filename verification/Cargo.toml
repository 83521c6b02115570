[package]
name = "gempost"
version = "0.1.0"
edition = "2021"
publish = false

[dependencies]
chrono = "0.4"
clap = { version = "4", features = ["derive"] }
color-eyre = "0.6"
eyre = "0.6"
serde = { version = "1", features = ["derive"] }
serde_yaml = "0.9"
tera = "1"
url = "2"
uuid = { version = "1", features = ["v4"] }
