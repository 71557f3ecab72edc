[package]
name = "cyapi"
version = "0.1.0"
edition = "2021"
publish = false

[dependencies]
byteorder = "1"
hex = "0.4"
serialport = { version = "4", default-features = false }
log = "0.4"
env_logger = { version = "0.11", default-features = false }
clap = { version = "4", features = ["derive"] }
libc = "0.2"
