[package]
name = "framed_codec"
version = "0.1.0"
edition = "2021"
publish = false

[dependencies]
memchr = "*"
serde_json = "*"
serde_cbor = "*"
