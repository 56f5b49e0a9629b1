[package]
name = "rdenticon"
version = "0.1.0"
edition = "2021"
publish = false

[dependencies]
ril = { version = "*", default-features = false, features = ["png"] }
sha1_smol = "*"
