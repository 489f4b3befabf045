[package]
name = "findupdate"
version = "0.1.0"
edition = "2021"
publish = false

[dependencies]
regex = "1"
percent-encoding = "2"
kuchiki = "0.8"
reqwest = { version = "0.11", default-features = false, features = ["blocking", "json"] }
serde = { version = "1", features = ["derive"] }
serde_json = "1"
clap = "4"
anyhow = "1"
log = "0.4"
env_logger = "0.10"
owo-colors = "3"
rayon = "1"
walkdir = "2"
winnow = "0.5"
