[package]
name = "medistore"
version = "0.1.0"
edition = "2021"
publish = false

[dependencies]
calimero-sdk = "*"
calimero-storage = "*"
