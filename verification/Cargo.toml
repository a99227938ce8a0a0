[package]
name = "rustup_mirror"
version = "0.7.1"
edition = "2021"
publish = false

[dependencies]
anyhow = "1"
chrono = "0.4"
clap = "3"
filebuffer = "0.4"
hex = "0.4"
indicatif = "0.17"
reqwest = { version = "0.11", default-features = false, features = ["blocking", "rustls-tls"] }
ring = "0.17"
toml = "0.8"
url = "2"
