[package]
name = "wally_install"
version = "0.1.0"
edition = "2021"
publish = false

[dependencies]
anyhow = "*"
crossterm = "*"
fs-err = "*"
indicatif = "*"
log = "*"
serde_json = "*"
tokio = { version = "*", features = ["rt-multi-thread"] }
