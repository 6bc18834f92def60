[package]
name = "envir"
version = "0.1.0"
edition = "2021"
publish = false

[dependencies]
dotenvy = "*"
env_logger = "*"
tracing-subscriber = { version = "*", features = ["env-filter"] }
