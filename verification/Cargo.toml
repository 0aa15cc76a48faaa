[package]
name = "boxpeer"
version = "0.1.0"
edition = "2021"
publish = false

[dependencies]
sha2 = "0.10"
hex = "0.4"
base64 = "0.13"
