[package]
name = "gevel"
version = "0.1.0"
edition = "2021"
publish = false

[dependencies]
pgx = { version = "*", features = ["pg13"] }
