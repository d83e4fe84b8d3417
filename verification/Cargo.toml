[package]
name = "clean_builds"
version = "0.1.0"
edition = "2021"
publish = false

[dependencies]
globset = "*"
walkdir = "*"
jwalk = "*"
rayon = "*"
clap = { version = "*", features = ["derive"] }
log = "*"
env_logger = "*"
thiserror = "*"

[dev-dependencies]
tempfile = "*"
