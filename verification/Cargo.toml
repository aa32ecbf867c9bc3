[package]
name = "hunk_commute"
version = "0.1.0"
edition = "2021"
publish = false

[dependencies]
failure = { version = "0.1.8", default-features = false, features = ["std"] }
