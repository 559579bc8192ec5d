[package]
name = "rustserver"
version = "0.1.0"
edition = "2021"
publish = false

[dependencies]
libc = "0.2"
mio = { version = "=1.2.4", features = ["net", "os-poll"] }
