[package]
name = "clove"
version = "0.2.0"
edition = "2021"
publish = false

[dependencies]
camino = "1"
chrono = { version = "0.4", features = ["serde"] }
clap = { version = "4", features = ["derive"] }
semver = "1"
serde = { version = "1", features = ["derive"] }
serde_json = "1"
tempfile = "3"
ureq = "3"
webpki-root-certs = "*"
