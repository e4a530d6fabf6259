[package]
name = "flint_proto"
version = "0.1.0"
edition = "2021"
publish = false

[dependencies]
heapless = "0.8"
postcard = { version = "1", default-features = false }
serialport = { version = "4", default-features = false }
