[package]
name = "crates-query"
version = "0.1.0"
edition = "2021"
publish = false

[dependencies]
clap = { version = "4", features = ["derive", "cargo"] }
crates-index = { version = "*", default-features = false, features = ["sparse"] }
semver = "1"
tempfile = "3"
