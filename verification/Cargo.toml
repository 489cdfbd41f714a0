[package]
name = "bisector"
version = "0.1.0"
edition = "2021"
publish = false

[dependencies]
anyhow = "*"
chrono = "0.4"
clap = { version = "*", features = ["derive"] }
colored = "*"
dialoguer = "*"
env_logger = "*"
flate2 = "*"
git2 = { version = "*", default-features = false }
home = "*"
log = "*"
pbr = "*"
reqwest = { version = "*", default-features = false, features = ["blocking", "json"] }
rustc_version = "*"
serde = { version = "*", features = ["derive"] }
tar = "*"
tee = "*"
tempdir = "*"
thiserror = "*"
toml = "*"
xz2 = "*"
