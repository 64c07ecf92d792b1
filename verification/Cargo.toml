[package]
name = "zellij_server"
version = "0.1.0"
edition = "2021"
publish = false

[dependencies]
ansi_term = "0.12"
log = "0.4"
tokio = { version = "1", features = ["rt", "time", "macros"] }
