[package]
name = "bn_with_bigint"
version = "0.1.0"
edition = "2021"
publish = false

[dependencies]
byteorder = { version = "1", default-features = false }
crypto-bigint = { version = "0.5", default-features = false }
rand = "0.8"
substrate-bn = "0.6"
