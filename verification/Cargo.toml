[package]
name = "repo_bloat"
version = "0.1.0"
edition = "2021"
publish = false

[dependencies]
git2 = { version = "*", default-features = false }
byte-unit = "4"
sorted-vec = "*"

[dev-dependencies]
tempfile = "*"
