[package]
name = "cw_indexer"
version = "0.1.0"
edition = "2021"
publish = false

[dependencies]
cosmwasm-std = "1.5"
cosmwasm-schema = "1.5"
cw-storage-plus = "1.2"
cw4 = "1.1"
cw-controllers = "1.1"
thiserror = "1"
