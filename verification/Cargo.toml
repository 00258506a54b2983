[package]
name = "markdown_converter"
version = "0.1.0"
edition = "2021"
publish = false

[dependencies]
anyhow = "1"
colored = "2"
console = "0.15"
dialoguer = "0.11"
env_logger = "0.10"
indicatif = "0.17"
log = "0.4"
notify = "6"
regex = "1"
syntect = { version = "5", default-features = false, features = ["default-fancy"] }
thiserror = "1"
