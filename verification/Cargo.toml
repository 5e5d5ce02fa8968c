[package]
name = "audioware"
version = "0.1.0"
edition = "2021"
publish = false

[dependencies]
crossbeam = "0.8"
parking_lot = "0.12"
humantime = "2"
bitflags = "2"
either = "1"
ahash = "0.8"
dashmap = "6"
once_cell = "1"
snafu = "0.8"
debug-ignore = "1"
serde_yaml = "0.9"
kira = { version = "0.10", default-features = false }
