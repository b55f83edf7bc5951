[package]
name = "rustcom"
version = "0.1.0"
edition = "2021"
publish = false

[dependencies]
regex = "1"
chrono = "0.4"
serialport = { version = "4", default-features = false }
