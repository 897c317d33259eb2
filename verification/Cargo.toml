[package]
name = "ctv_covenant"
version = "0.1.0"
edition = "2021"
publish = false

[dependencies]
bitcoin = { version = "0.31", features = ["rand-std"] }
bitcoincore-rpc = "0.18"
hex = "0.4"
rand = "0.8"
