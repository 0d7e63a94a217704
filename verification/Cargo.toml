[package]
name = "mhz19"
version = "0.1.0"
edition = "2021"
publish = false

[dependencies]
serial = "0.4"
err-derive = "0.3"
