[package]
name = "solicit_mio"
version = "0.1.0"
edition = "2021"
publish = false

[dependencies]
env_logger = "0.3"
log = "0.3"
mio = "0.4"
solicit = "0.4"
