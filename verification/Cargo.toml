[package]
name = "jumon"
version = "0.1.0"
edition = "2021"
publish = false

[dependencies]
bitstream-io = "2"
colored = "2"
prettytable-rs = { version = "0.10", default-features = false }
