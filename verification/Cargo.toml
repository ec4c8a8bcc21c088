[package]
name = "remote_memory"
version = "0.1.0"
edition = "2021"
publish = false

[dependencies]
lz4 = "1"
libc = "0.2"
errno = "0.3"
procfs = { version = "0.16", default-features = false }
tokio = { version = "1", features = ["net", "io-util", "rt-multi-thread", "macros"] }
log = "0.4"
env_logger = "0.11"
