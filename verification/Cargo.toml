[package]
name = "vedirect_link"
version = "0.1.0"
edition = "2021"
publish = false

[dependencies]
crossbeam = "0.8"
rusb = "0.9"
serialport = { version = "4", default-features = false }
slint = { version = "1", default-features = false, features = ["std", "compat-1-2"] }
