[package]
name = "file_watcher"
version = "0.1.0"
edition = "2021"
publish = false

[dependencies]
semver = "1"
toml = "0.8"
serde = { version = "1", features = ["derive"] }
walkdir = "2"
notify = "6"
structopt = "0.3"

[dev-dependencies]
regex = "1"
