[package]
name = "async-io-mini"
version = "0.1.0"
edition = "2021"
publish = false

[dependencies]
heapless = "0.8"
libc = "0.2"
log = "0.4"
futures-lite = "2"
embassy-time = { version = "0.3", features = ["std", "generic-queue"] }
embassy-time-driver = "0.1"
embassy-time-queue-driver = "0.1"
