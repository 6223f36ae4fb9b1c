[package]
name = "ecvrf"
version = "0.1.0"
edition = "2021"
publish = false

[dependencies]
k256 = "=0.14.0"
sha2 = "=0.11.0"
hex = "=0.4.3"
