[package]
name = "logan"
version = "0.1.0"
edition = "2021"
publish = false

[dependencies]
regex = "1"
serde_json = "1"
ansi_term = "0.12"
clap = "2"
