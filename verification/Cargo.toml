[package]
name = "tx_indexer"
version = "0.1.0"
edition = "2021"
publish = false

[dependencies]
hex = "0.4"
substreams = "*"
substreams-ethereum = "*"
