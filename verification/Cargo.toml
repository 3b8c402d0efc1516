[package]
name = "ersatz"
version = "0.1.0"
edition = "2021"
publish = false

[dependencies]
bit-set = "*"
wast = { version = "*", default-features = false }
clap = "2"
fern = { version = "*", features = ["colored"] }
glob = "*"
log = "*"
