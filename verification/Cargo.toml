[package]
name = "senmon"
version = "0.1.0"
edition = "2021"
publish = false

[dependencies]
aes-gcm = "0.10"
chrono = "0.4"
hex = "0.4"
rand = "0.8"
ring = "0.17"
