[package]
name = "para_speak"
version = "0.1.0"
edition = "2021"
publish = false

[dependencies]
aho-corasick = "1"
anyhow = "1"
clap = { version = "4", features = ["derive", "env"] }
cpal = "0.15"
crossbeam-channel = "0.5"
dashmap = "6"
dotenv = "0.15"
parking_lot = "0.12"
rdev = "0.5"
ringbuf = "0.4"
signal-hook = "0.3"
tracing = "0.1"
