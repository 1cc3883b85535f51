[package]
name = "bundle_schema"
version = "0.1.0"
edition = "2021"
publish = false

[dependencies]
serde_json = "*"
url = "*"
clap = { version = "*", features = ["derive"] }
log = "*"
simple_logger = "*"
