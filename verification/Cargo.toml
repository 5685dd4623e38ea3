[package]
name = "votodroid"
version = "0.1.0"
edition = "2021"
publish = false

[dependencies]
regex = "1"
rust-argon2 = "2"
rand = "0.8"
