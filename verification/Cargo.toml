[package]
name = "borrow_repair"
version = "0.1.0"
edition = "2021"
publish = false

[dependencies]
clap = { version = "=4.6.7", features = ["derive"] }
colored = "=2.2.0"
env_logger = "=0.11.11"
log = "=0.4.34"
rem-utils = "=0.1.6"
