[package]
name = "kamino"
version = "0.1.0"
edition = "2021"
publish = false

[dependencies]
git2 = { version = "=0.21.0", features = ["cred"] }
sha2 = "=0.11.0"
clap = { version = "=4.6.7", features = ["derive"] }

[dev-dependencies]
tempfile = "=3.27.0"
fs-err = "*"
