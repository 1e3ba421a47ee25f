[package]
name = "gus"
version = "0.1.0"
edition = "2021"
publish = false

[dependencies]
cruet = "*"
serde_json = "*"
apollo-compiler = "*"
serde = { version = "*", features = ["derive"] }
actix-web = "*"
clap = { version = "*", features = ["derive"] }
dialoguer = "*"
