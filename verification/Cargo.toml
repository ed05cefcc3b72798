[package]
name = "timegrapher"
version = "0.1.0"
edition = "2021"
publish = false

[dependencies]
anyhow = "1"
cpal = "0.15"
futures = "0.3"
libc = "0.2"
log = "0.4"
rustfft = "6"
simple_logger = "5"
tokio = { version = "1", features = ["macros", "rt-multi-thread", "sync", "time"] }
