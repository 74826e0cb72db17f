[package]
name = "codspeed_go_runner"
version = "0.1.0"
edition = "2021"
publish = false

[dependencies]
anyhow = "*"
dircpy = "*"
env_logger = "*"
flate2 = "*"
glob = "*"
gosyn = "*"
log = "*"
reqwest = { version = "*", default-features = false, features = ["blocking"] }
semver = "*"
serde = { version = "*", features = ["derive"] }
serde_json = "*"
tar = "*"
tempfile = "*"
thiserror = "*"
