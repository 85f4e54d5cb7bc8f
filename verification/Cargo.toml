[package]
name = "deetbeam"
version = "0.1.0"
edition = "2021"
publish = false

[dependencies]
clap = { version = "3", features = ["derive"] }
http = "0.2"
log = "0.4"
parking_lot = "0.12"
pretty_env_logger = "0.4"
rand = "0.7"
rustyline = "9"
