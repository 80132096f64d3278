[package]
name = "sqlfs"
version = "0.1.0"
edition = "2021"
publish = false

[dependencies]
rusqlite = { version = "*", features = ["bundled"] }
fuser = "*"
libc = "*"
log = "*"
env_logger = "*"
