[package]
name = "rpsql"
version = "0.1.0"
edition = "2021"
publish = false

[dependencies]
clap = "3"
dirs = "*"
postgres = "0.19"
postgres-types = "*"
serde = { version = "1", features = ["derive"] }
serde_json = "1"
termion = "1"
