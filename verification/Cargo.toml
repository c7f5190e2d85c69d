[package]
name = "rauth"
version = "0.1.0"
edition = "2021"
publish = false

[dependencies]
nanoid = "*"
rust-argon2 = "*"
chrono = "*"
serde = { version = "*", features = ["derive"] }
