[package]
name = "libarena-rs"
version = "0.2.0"
edition = "2021"
publish = false

[dependencies]
tar = "0.4"
