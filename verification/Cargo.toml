[package]
name = "fast_log"
version = "0.1.0"
edition = "2021"
publish = false

[dependencies]
log = "0.4"
crossbeam-channel = "0.5"
crossbeam-utils = "0.8"
dashmap = "6"
chrono = { version = "0.4", default-features = false, features = ["clock", "std"] }
fastdate = "0.3"
