[package]
name = "rp2040_i2c"
version = "0.1.0"
edition = "2021"
publish = false

[dependencies]
embedded-hal = "1"
fugit = "0.3"
