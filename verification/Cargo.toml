[package]
name = "useless_bot"
version = "0.1.0"
edition = "2021"
publish = false

[dependencies]
anyhow = "1"
dotenv = "0.15"
env_logger = "*"
html5ever = "0.27"
log = "0.4"
markup5ever_rcdom = "0.3"
poise = "0.6"
rand = "*"
regex = "1"
reqwest = { version = "*", default-features = false, features = ["rustls-tls"] }
serde_json = "1"
serde_yaml = "0.9"
serenity = "0.12"
thiserror = "*"
tokio = { version = "1", features = ["full"] }
urlencoding = "2"
