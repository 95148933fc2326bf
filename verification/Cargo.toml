[package]
name = "santa-core"
version = "0.1.0"
edition = "2021"
publish = false

[dependencies]
rand = "0.8"
log = "0.4"
simple_logger = "*"

[dev-dependencies]
rand_chacha = "0.3"
