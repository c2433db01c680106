[package]
name = "elvui_manager"
version = "0.1.0"
edition = "2021"
publish = false

[dependencies]
anyhow = "1"
clap = { version = "3", features = ["derive"] }
env_logger = "0.9"
log = "0.4"
regex = "1"
reqwest = { version = "0.11", features = ["blocking", "json"] }
serde = { version = "1", features = ["derive"] }
tempfile = "3"
version-compare = "0.1"
zip = { version = "0.6", default-features = false, features = ["deflate"] }
