[package]
name = "capsule"
version = "0.1.0"
edition = "2021"
publish = false

[dependencies]
git2 = { version = "*", default-features = false }
isahc = "*"
clap = { version = "*", features = ["derive"] }

[dev-dependencies]
tempdir = "*"
